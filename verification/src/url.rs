use vstd::prelude::*;

use crate::chars::{append_chars, append_str, chars_of, decimal, decimal_chars, str_eq, string_of};
use crate::text::{is_whitespace, is_whitespace_char, trim};

verus! {

/// Where a Home Assistant instance is reached: its origin, its WebSocket API
/// and its REST API, and whether the connection is unencrypted.
#[derive(Debug, Clone, PartialEq, Eq)]
pub struct Endpoint {
    pub origin: String,
    pub websocket: String,
    pub rest: String,
    pub plaintext: bool,
}

/// Why an address was refused.
#[derive(Debug, Clone, PartialEq, Eq)]
pub enum UrlError {
    Empty,
    Malformed,
    UnsupportedScheme(String),
}

/// What the `url` crate makes of an absolute URL, as far as an endpoint needs it.
#[derive(Debug, Clone)]
pub struct UrlParts {
    pub scheme: String,
    pub host: Option<String>,
    pub port: Option<u16>,
    pub path: String,
}

/// The plain value of parsed URL parts: scheme, host, port and path.
pub open spec fn parts_view(p: Option<UrlParts>) -> Option<(Seq<char>, Option<Seq<char>>, Option<u16>, Seq<char>)> {
    match p {
        None => None,
        Some(p) => Some(
            (
                p.scheme@,
                match p.host {
                    Some(h) => Some(h@),
                    None => None,
                },
                p.port,
                p.path@,
            ),
        ),
    }
}

/// What `url::Url::parse` makes of a string, read back through its `scheme`,
/// `host_str`, `port` and `path` accessors; `None` where it refuses the string.
pub uninterp spec fn url_parse(input: Seq<char>) -> Option<(Seq<char>, Option<Seq<char>>, Option<u16>, Seq<char>)>;

/// Calls `url::Url::parse` and reads the parts of the result. Its contract
/// claims that the result is a function of the input (named `url_parse`) and
/// one fact of the parser's scheme state: a string that starts with
/// `https://` and parses has the scheme `https` (the scheme is what precedes
/// the first `:`, lower-cased). What else the URL standard makes of a string
/// is left unsaid.
#[verifier::external_body]
fn parse_url(input: &str) -> (r: Option<UrlParts>)
    ensures
        parts_view(r) == url_parse(input@),
        input@.len() >= 8 && input@.subrange(0, 8) == "https://"@ ==> (r matches Some(p) ==> p.scheme@ == "https"@),
{
    match url::Url::parse(input) {
        Ok(u) => Some(
            UrlParts {
                scheme: u.scheme().to_string(),
                host: match u.host_str() {
                    Some(h) => Some(h.to_string()),
                    None => None,
                },
                port: u.port(),
                path: u.path().to_string(),
            },
        ),
        Err(_) => None,
    }
}

/// The plain value of an endpoint: origin, WebSocket URL, REST URL, plaintext.
pub open spec fn endpoint_view(e: Endpoint) -> (Seq<char>, Seq<char>, Seq<char>, bool) {
    (e.origin@, e.websocket@, e.rest@, e.plaintext)
}

/// The plain value of a refusal: `Empty`, `Malformed`, or the refused scheme.
pub enum UrlErrorView {
    Empty,
    Malformed,
    UnsupportedScheme(Seq<char>),
}

pub open spec fn url_error_view(e: UrlError) -> UrlErrorView {
    match e {
        UrlError::Empty => UrlErrorView::Empty,
        UrlError::Malformed => UrlErrorView::Malformed,
        UrlError::UnsupportedScheme(s) => UrlErrorView::UnsupportedScheme(s@),
    }
}

pub open spec fn result_view(r: Result<Endpoint, UrlError>) -> Result<(Seq<char>, Seq<char>, Seq<char>, bool), UrlErrorView> {
    match r {
        Ok(e) => Ok(endpoint_view(e)),
        Err(e) => Err(url_error_view(e)),
    }
}

/// `s` with every trailing `/` removed.
pub open spec fn strip_trailing_slashes(s: Seq<char>) -> Seq<char>
    decreases s.len(),
{
    if s.len() > 0 && s.last() == '/' {
        strip_trailing_slashes(s.drop_last())
    } else {
        s
    }
}

/// The endpoint that parsed URL parts name: the scheme decides encryption
/// (`https`/`wss` encrypted, `http`/`ws` not, anything else refused), the host
/// must be there and non-empty, an explicit port is kept, and the path, with
/// trailing slashes removed, is the base of every address.
pub open spec fn endpoint_spec(parsed: Option<(Seq<char>, Option<Seq<char>>, Option<u16>, Seq<char>)>) -> Result<
    (Seq<char>, Seq<char>, Seq<char>, bool),
    UrlErrorView,
> {
    match parsed {
        None => Err(UrlErrorView::Malformed),
        Some((scheme, host, port, path)) => {
            if !(scheme == "https"@ || scheme == "wss"@ || scheme == "http"@ || scheme == "ws"@) {
                Err(UrlErrorView::UnsupportedScheme(scheme))
            } else if host is None || host->0.len() == 0 {
                Err(UrlErrorView::Malformed)
            } else {
                let secure = scheme == "https"@ || scheme == "wss"@;
                let authority = match port {
                    Some(p) => host->0 + ":"@ + decimal(p as nat),
                    None => host->0,
                };
                let base = strip_trailing_slashes(path);
                let http = if secure { "https"@ } else { "http"@ };
                let ws = if secure { "wss"@ } else { "ws"@ };
                Ok(
                    (
                        http + "://"@ + authority + base,
                        ws + "://"@ + authority + base + "/api/websocket"@,
                        http + "://"@ + authority + base + "/api"@,
                        !secure,
                    ),
                )
            }
        },
    }
}

/// The index of the first `://` in `s`, or -1.
pub open spec fn separator_index(s: Seq<char>) -> int
    decreases s.len(),
{
    if s.len() < 3 {
        -1
    } else if s[0] == ':' && s[1] == '/' && s[2] == '/' {
        0
    } else if separator_index(s.drop_first()) < 0 {
        -1
    } else {
        separator_index(s.drop_first()) + 1
    }
}

/// A character that may stand in a URL scheme.
pub open spec fn is_scheme_char(c: char) -> bool {
    ('a' <= c && c <= 'z') || ('A' <= c && c <= 'Z') || ('0' <= c && c <= '9') || c == '+' || c == '-' || c == '.'
}

/// Whether `s` starts with a scheme: a non-empty run of scheme characters before its first `://`.
pub open spec fn has_scheme(s: Seq<char>) -> bool {
    let k = separator_index(s);
    k > 0 && forall|i: int| 0 <= i < k ==> is_scheme_char(#[trigger] s[i])
}

/// The address handed to the URL parser: the input, or, without a scheme, the
/// input behind `https://`.
pub open spec fn candidate(s: Seq<char>) -> Seq<char> {
    if has_scheme(s) {
        s
    } else {
        "https://"@ + s
    }
}

/// What `parse` makes of an address.
pub open spec fn parse_spec(input: Seq<char>) -> Result<(Seq<char>, Seq<char>, Seq<char>, bool), UrlErrorView> {
    let t = trim(input);
    if t.len() == 0 {
        Err(UrlErrorView::Empty)
    } else {
        endpoint_spec(url_parse(candidate(t)))
    }
}

proof fn lemma_separator_index(s: Seq<char>, k: int)
    requires
        0 <= k,
        k + 3 <= s.len(),
        s[k] == ':' && s[k + 1] == '/' && s[k + 2] == '/',
        forall|j: int| 0 <= j < k ==> !(#[trigger] s[j] == ':' && s[j + 1] == '/' && s[j + 2] == '/'),
    ensures
        separator_index(s) == k,
    decreases k,
{
    if k > 0 {
        let t = s.drop_first();
        assert forall|j: int| 0 <= j < k - 1 implies !(#[trigger] t[j] == ':' && t[j + 1] == '/' && t[j + 2] == '/') by {
            assert(t[j] == s[j + 1] && t[j + 1] == s[j + 2] && t[j + 2] == s[j + 3]);
        }
        lemma_separator_index(t, k - 1);
    }
}

proof fn lemma_no_separator(s: Seq<char>)
    requires
        forall|j: int| 0 <= j && j + 3 <= s.len() ==> !(#[trigger] s[j] == ':' && s[j + 1] == '/' && s[j + 2] == '/'),
    ensures
        separator_index(s) == -1,
    decreases s.len(),
{
    if s.len() >= 3 {
        let t = s.drop_first();
        assert forall|j: int| 0 <= j && j + 3 <= t.len() implies !(#[trigger] t[j] == ':' && t[j + 1] == '/' && t[j + 2]
            == '/') by {
            assert(t[j] == s[j + 1] && t[j + 1] == s[j + 2] && t[j + 2] == s[j + 3]);
        }
        lemma_no_separator(t);
    }
}

fn is_scheme_char_exec(c: char) -> (r: bool)
    ensures
        r == is_scheme_char(c),
{
    ('a' <= c && c <= 'z') || ('A' <= c && c <= 'Z') || ('0' <= c && c <= '9') || c == '+' || c == '-' || c == '.'
}

fn has_scheme_exec(s: &Vec<char>) -> (r: bool)
    ensures
        r == has_scheme(s@),
{
    let mut k: usize = 0;
    while k < s.len() && s.len() - k >= 3 && !(s[k] == ':' && s[k + 1] == '/' && s[k + 2] == '/')
        invariant
            k <= s@.len(),
            forall|j: int| 0 <= j < k ==> !(#[trigger] s@[j] == ':' && s@[j + 1] == '/' && s@[j + 2] == '/'),
        decreases s@.len() + 3 - k,
    {
        k = k + 1;
    }
    if k >= s.len() || s.len() - k < 3 {
        proof {
            assert forall|j: int| 0 <= j && j + 3 <= s@.len() implies !(#[trigger] s@[j] == ':' && s@[j + 1] == '/'
                && s@[j + 2] == '/') by {}
            lemma_no_separator(s@);
        }
        return false;
    }
    proof {
        lemma_separator_index(s@, k as int);
    }
    if k == 0 {
        return false;
    }
    let mut i: usize = 0;
    while i < k
        invariant
            k + 3 <= s@.len(),
            separator_index(s@) == k,
            i <= k,
            forall|j: int| 0 <= j < i ==> is_scheme_char(#[trigger] s@[j]),
        decreases k - i,
    {
        if !is_scheme_char_exec(s[i]) {
            assert(!is_scheme_char(s@[i as int]));
            return false;
        }
        i = i + 1;
    }
    true
}

fn strip_trailing_slashes_exec(s: &Vec<char>) -> (r: Vec<char>)
    ensures
        r@ == strip_trailing_slashes(s@),
{
    let mut e = s.len();
    assert(s@.take(e as int) =~= s@);
    while e > 0 && s[e - 1] == '/'
        invariant
            e <= s@.len(),
            strip_trailing_slashes(s@) == strip_trailing_slashes(s@.take(e as int)),
        decreases e,
    {
        assert(s@.take(e as int).drop_last() =~= s@.take(e - 1));
        e = e - 1;
    }
    let mut r: Vec<char> = Vec::new();
    let mut i: usize = 0;
    while i < e
        invariant
            e <= s@.len(),
            i <= e,
            r@ == s@.take(i as int),
        decreases e - i,
    {
        r.push(s[i]);
        i = i + 1;
        proof {
            assert(r@ =~= s@.take(i as int));
        }
    }
    r
}

/// The endpoint that URL parts name; see `endpoint_spec`.
pub fn endpoint_of(parsed: Option<UrlParts>) -> (r: Result<Endpoint, UrlError>)
    ensures
        result_view(r) == endpoint_spec(parts_view(parsed)),
{
    let parts = match parsed {
        Some(p) => p,
        None => return Err(UrlError::Malformed),
    };
    let scheme = parts.scheme.as_str();
    let secure = if str_eq(scheme, "https") || str_eq(scheme, "wss") {
        true
    } else if str_eq(scheme, "http") || str_eq(scheme, "ws") {
        false
    } else {
        return Err(UrlError::UnsupportedScheme(parts.scheme.clone()));
    };
    let host = match &parts.host {
        Some(h) => h,
        None => return Err(UrlError::Malformed),
    };
    if host.as_str().is_empty() {
        return Err(UrlError::Malformed);
    }
    let mut authority = chars_of(host.as_str());
    match parts.port {
        Some(port) => {
            append_str(&mut authority, ":");
            let digits = decimal_chars(port as u64);
            append_chars(&mut authority, &digits);
        },
        None => {},
    }
    let path = chars_of(parts.path.as_str());
    let base = strip_trailing_slashes_exec(&path);
    let http = if secure { "https" } else { "http" };
    let ws = if secure { "wss" } else { "ws" };

    let mut origin = chars_of(http);
    append_str(&mut origin, "://");
    append_chars(&mut origin, &authority);
    append_chars(&mut origin, &base);

    let mut websocket = chars_of(ws);
    append_str(&mut websocket, "://");
    append_chars(&mut websocket, &authority);
    append_chars(&mut websocket, &base);
    append_str(&mut websocket, "/api/websocket");

    let mut rest = chars_of(http);
    append_str(&mut rest, "://");
    append_chars(&mut rest, &authority);
    append_chars(&mut rest, &base);
    append_str(&mut rest, "/api");

    Ok(
        Endpoint {
            origin: string_of(&origin),
            websocket: string_of(&websocket),
            rest: string_of(&rest),
            plaintext: !secure,
        },
    )
}

/// Reads a Home Assistant address as a user types it. Surrounding white space
/// is ignored; an address without a scheme is taken to be `https://`, since
/// guessing downward would send the token in the clear; `http`/`ws` are
/// accepted but reported as plaintext; other schemes are refused.
pub fn parse(input: &str) -> (r: Result<Endpoint, UrlError>)
    ensures
        result_view(r) == parse_spec(input@),
        r is Ok && !has_scheme(trim(input@)) ==> !r->Ok_0.plaintext,
{
    let v = chars_of(input);
    let mut a: usize = 0;
    while a < v.len() && is_whitespace_char(v[a])
        invariant
            a <= v@.len(),
            forall|i: int| 0 <= i < a ==> is_whitespace(#[trigger] v@[i]),
        decreases v@.len() - a,
    {
        a = a + 1;
    }
    let mut b = v.len();
    while b > a && is_whitespace_char(v[b - 1])
        invariant
            a <= b <= v@.len(),
            forall|i: int| b <= i < v@.len() ==> is_whitespace(#[trigger] v@[i]),
        decreases b - a,
    {
        b = b - 1;
    }
    let mut trimmed: Vec<char> = Vec::new();
    let mut k = a;
    while k < b
        invariant
            a <= k <= b <= v@.len(),
            trimmed@ == v@.subrange(a as int, k as int),
        decreases b - k,
    {
        trimmed.push(v[k]);
        k = k + 1;
        proof {
            assert(trimmed@ =~= v@.subrange(a as int, k as int));
        }
    }
    proof {
        crate::text::lemma_trim_range(v@, a as int, b as int);
    }
    if trimmed.len() == 0 {
        return Err(UrlError::Empty);
    }
    let candidate = if has_scheme_exec(&trimmed) {
        string_of(&trimmed)
    } else {
        let mut c = chars_of("https://");
        append_chars(&mut c, &trimmed);
        proof {
            reveal_strlit("https://");
            assert(c@.subrange(0, 8) =~= "https://"@);
        }
        string_of(&c)
    };
    let parsed = parse_url(candidate.as_str());
    proof {
        reveal_strlit("https");
        reveal_strlit("http");
        reveal_strlit("wss");
        reveal_strlit("ws");
    }
    endpoint_of(parsed)
}

/// A refusal in words.
pub open spec fn url_error_text(e: UrlErrorView) -> Seq<char> {
    match e {
        UrlErrorView::Empty => "no Home Assistant URL set"@,
        UrlErrorView::Malformed => "that does not look like a URL"@,
        UrlErrorView::UnsupportedScheme(s) => "unsupported scheme \u{201c}"@ + s + "\u{201d}"@,
    }
}

impl UrlError {
    /// The refusal in words.
    pub fn message(&self) -> (r: String)
        ensures
            r@ == url_error_text(url_error_view(*self)),
    {
        match self {
            UrlError::Empty => String::from_str("no Home Assistant URL set"),
            UrlError::Malformed => String::from_str("that does not look like a URL"),
            UrlError::UnsupportedScheme(s) => {
                let a = crate::chars::concat("unsupported scheme \u{201c}", s.as_str());
                crate::chars::concat(a.as_str(), "\u{201d}")
            },
        }
    }
}

/// The three addresses of an endpoint agree: the REST API lies under the
/// origin, and the WebSocket API is the origin's twin (`wss` for `https`,
/// `ws` for `http`); the plaintext flag is set exactly for `http`.
pub proof fn law_endpoint_addresses_agree(input: Seq<char>)
    ensures
        parse_spec(input) matches Ok(e) ==> {
            &&& e.2 == e.0 + "/api"@
            &&& e.3 ==> e.0 == "http"@ + e.0.skip(4) && e.1 == "ws"@ + e.0.skip(4) + "/api/websocket"@
            &&& !e.3 ==> e.0 == "https"@ + e.0.skip(5) && e.1 == "wss"@ + e.0.skip(5) + "/api/websocket"@
        },
{
    reveal_strlit("http");
    reveal_strlit("https");
    reveal_strlit("ws");
    reveal_strlit("wss");
    if let Ok(e) = parse_spec(input) {
        let t = trim(input);
        let (scheme, host, port, path) = url_parse(candidate(t))->0;
        let secure = scheme == "https"@ || scheme == "wss"@;
        let authority = match port {
            Some(p) => host->0 + ":"@ + decimal(p as nat),
            None => host->0,
        };
        let base = strip_trailing_slashes(path);
        let rest = "://"@ + authority + base;
        if secure {
            assert(e.0 == "https"@ + rest);
            assert(("https"@ + rest).skip(5) =~= rest);
            assert(e.1 =~= "wss"@ + rest + "/api/websocket"@);
            assert(e.2 =~= e.0 + "/api"@);
        } else {
            assert(e.0 == "http"@ + rest);
            assert(("http"@ + rest).skip(4) =~= rest);
            assert(e.1 =~= "ws"@ + rest + "/api/websocket"@);
            assert(e.2 =~= e.0 + "/api"@);
        }
    }
}

/// Whether the URL parser reads from the origin of the endpoint made of
/// `input` what it read from `input` itself: the same host and port, a path
/// equal up to trailing slashes, and the origin's own `http` or `https`
/// scheme; and the origin has no surrounding whitespace.
pub open spec fn origin_reads_back(input: Seq<char>) -> bool {
    let e = parse_spec(input)->Ok_0;
    let first = url_parse(candidate(trim(input)))->0;
    &&& parse_spec(input) is Ok
    &&& trim(e.0) == e.0
    &&& url_parse(e.0) matches Some((scheme, host, port, path))
    &&& scheme == (if e.3 { "http"@ } else { "https"@ })
    &&& host == first.1
    &&& port == first.2
    &&& strip_trailing_slashes(path) == strip_trailing_slashes(first.3)
}

/// Parsing an endpoint's own origin gives the same endpoint back, wherever
/// the URL parser reads the origin as it read the address first given.
pub proof fn law_an_origin_parses_back_to_its_endpoint(input: Seq<char>)
    requires
        origin_reads_back(input),
    ensures
        parse_spec(parse_spec(input)->Ok_0.0) == parse_spec(input),
{
    reveal_strlit("http");
    reveal_strlit("https");
    reveal_strlit("://");
    let e = parse_spec(input)->Ok_0;
    let t = trim(input);
    let (scheme, host, port, path) = url_parse(candidate(t))->0;
    let secure = scheme == "https"@ || scheme == "wss"@;
    let authority = match port {
        Some(p) => host->0 + ":"@ + decimal(p as nat),
        None => host->0,
    };
    let base = strip_trailing_slashes(path);
    let http = if secure { "https"@ } else { "http"@ };
    let o = e.0;
    assert(o == http + "://"@ + authority + base);
    let k: int = if secure { 5 } else { 4 };
    assert forall|i: int| 0 <= i < k implies o[i] == http[i] && #[trigger] is_scheme_char(o[i]) by {
        assert(o[i] == http[i]);
    }
    assert(o[k] == ':' && o[k + 1] == '/' && o[k + 2] == '/');
    assert forall|j: int| 0 <= j < k implies !(#[trigger] o[j] == ':' && o[j + 1] == '/' && o[j + 2] == '/') by {
        assert(o[j] == http[j]);
    }
    lemma_separator_index(o, k);
    assert(has_scheme(o));
    assert(candidate(trim(o)) == o);
    reveal_strlit("wss");
    let (scheme2, host2, port2, path2) = url_parse(o)->0;
    assert(scheme2 == http);
    assert((scheme2 == "https"@ || scheme2 == "wss"@) == secure);
    assert(strip_trailing_slashes(path2) == base);
    assert(endpoint_spec(url_parse(o)) == Ok::<(Seq<char>, Seq<char>, Seq<char>, bool), UrlErrorView>(e));
}

} // verus!
