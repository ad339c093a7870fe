use vstd::prelude::*;

use crate::chars::concat;
use crate::text::{trim, trim_text};

verus! {

/// The service name under which tokens are stored.
pub const SERVICE: &'static str = "atrium";

/// The search path the keyring helper runs with. The token is written to the
/// helper's standard input, so a helper planted earlier in an inherited path
/// must never receive it.
pub const SAFE_PATH: &'static str = "/usr/bin:/bin";

/// How long the keyring helper may take, in seconds.
pub const DEADLINE_SECS: u64 = 20;

/// Where the keyring helper may be, in the order tried: absolute paths only.
pub open spec fn candidate(i: int) -> Seq<char> {
    if i == 0 {
        "/usr/bin/secret-tool"@
    } else if i == 1 {
        "/bin/secret-tool"@
    } else {
        "/usr/local/bin/secret-tool"@
    }
}

/// The places the keyring helper may be, in the order tried.
pub fn candidates() -> (r: Vec<&'static str>)
    ensures
        r@.len() == 3,
        forall|i: int| 0 <= i < 3 ==> (#[trigger] r@[i])@ == candidate(i),
{
    let mut r: Vec<&'static str> = Vec::new();
    r.push("/usr/bin/secret-tool");
    r.push("/bin/secret-tool");
    r.push("/usr/local/bin/secret-tool");
    r
}

/// The helper to run, given which of the candidates exist as files: the first
/// that does, if any.
pub fn helper(present: &[bool]) -> (r: Option<&'static str>)
    ensures
        match r {
            Some(p) => exists|i: int|
                0 <= i < 3 && i < present@.len() && present@[i] && p@ == candidate(i) && forall|j: int|
                    0 <= j < i ==> !present@[j],
            None => forall|i: int| 0 <= i < 3 && i < present@.len() ==> !present@[i],
        },
{
    let all = candidates();
    let mut i: usize = 0;
    while i < 3 && i < present.len()
        invariant
            all@.len() == 3,
            forall|k: int| 0 <= k < 3 ==> (#[trigger] all@[k])@ == candidate(k),
            i <= 3,
            forall|j: int| 0 <= j < i && j < present@.len() ==> !present@[j],
        decreases 3 - i,
    {
        if present[i] {
            let p = all[i];
            assert(p@ == candidate(i as int));
            return Some(p);
        }
        i = i + 1;
    }
    None
}

/// Whether every entry of a colon-separated search path is a non-empty
/// absolute path.
pub open spec fn all_entries_absolute(path: Seq<char>) -> bool {
    &&& path.len() > 0
    &&& path[0] == '/'
    &&& forall|i: int| 0 <= i < path.len() && path[i] == ':' ==> i + 1 < path.len() && #[trigger] path[i + 1]
        == '/'
}

/// The keyring helper is never looked up through an inherited search path:
/// every candidate is an absolute path, and so is every entry of the path the
/// helper runs with.
pub proof fn law_the_helper_is_found_only_at_absolute_paths()
    ensures
        forall|i: int| 0 <= i < 3 ==> (#[trigger] candidate(i)).len() > 0 && candidate(i)[0] == '/',
        all_entries_absolute(SAFE_PATH@),
{
    reveal_strlit("/usr/bin/secret-tool");
    reveal_strlit("/bin/secret-tool");
    reveal_strlit("/usr/local/bin/secret-tool");
    reveal_strlit("/usr/bin:/bin");
    let p = SAFE_PATH@;
    assert(p =~= "/usr/bin:/bin"@);
    assert forall|i: int| 0 <= i < p.len() && p[i] == ':' implies i + 1 < p.len() && #[trigger] p[i + 1] == '/' by {
        assert(i == 8);
    }
}

/// Why the system keyring could not be used.
#[derive(Debug, PartialEq)]
pub enum Error {
    Unavailable,
    Timeout,
    NotFound,
    Failed(String),
}

/// A keyring failure in words.
pub open spec fn error_text(e: Error) -> Seq<char> {
    match e {
        Error::Unavailable => "secret-tool is not installed, so the access token cannot be stored"@,
        Error::Timeout => "the system keyring did not respond"@,
        Error::NotFound => "no access token is stored for that address"@,
        Error::Failed(m) => "the system keyring refused: "@ + m@,
    }
}

impl Error {
    /// The failure in words.
    pub fn message(&self) -> (r: String)
        ensures
            r@ == error_text(*self),
    {
        match self {
            Error::Unavailable => String::from_str("secret-tool is not installed, so the access token cannot be stored"),
            Error::Timeout => String::from_str("the system keyring did not respond"),
            Error::NotFound => String::from_str("no access token is stored for that address"),
            Error::Failed(m) => concat("the system keyring refused: ", m.as_str()),
        }
    }
}

/// What a finished run of the helper means. A failed run that printed nothing
/// and exited with code 1 is a lookup that matched no entry; any other failure
/// is a real one and is reported with what the helper printed, or with its
/// exit status (`status` is how that reads) where it printed nothing.
pub fn finished(success: bool, code: Option<i32>, stdout: String, stderr: &str, status: &str) -> (r: Result<String, Error>)
    ensures
        success ==> r == Ok::<String, Error>(stdout),
        !success && trim(stderr@).len() == 0 && code == Some(1i32) ==> r == Err::<String, Error>(Error::NotFound),
        !success && trim(stderr@).len() == 0 && code != Some(1i32) ==> (r matches Err(Error::Failed(m)) && m@ == "exit status "@
            + status@),
        !success && trim(stderr@).len() > 0 ==> (r matches Err(Error::Failed(m)) && m@ == trim(stderr@)),
{
    if success {
        return Ok(stdout);
    }
    let message = trim_text(stderr);
    if message.as_str().is_empty() {
        if code == Some(1i32) {
            return Err(Error::NotFound);
        }
        return Err(Error::Failed(concat("exit status ", status)));
    }
    Err(Error::Failed(message))
}

/// What a lookup finds, given how the helper's run ended: the token it
/// printed, trimmed; nothing where it printed only white space or matched no
/// entry; and any other failure as it is.
pub fn looked_up(run: Result<String, Error>) -> (r: Result<Option<String>, Error>)
    ensures
        match run {
            Ok(out) => match r {
                Ok(Some(t)) => t@ == trim(out@) && t@.len() > 0,
                Ok(None) => trim(out@).len() == 0,
                Err(_) => false,
            },
            Err(Error::NotFound) => r matches Ok(None),
            Err(e) => r == Err::<Option<String>, Error>(e),
        },
{
    match run {
        Ok(out) => {
            let token = trim_text(out.as_str());
            if token.as_str().is_empty() {
                Ok(None)
            } else {
                Ok(Some(token))
            }
        },
        Err(Error::NotFound) => Ok(None),
        Err(e) => Err(e),
    }
}

/// What clearing achieved: an entry that was not there is cleared already.
pub fn cleared(run: Result<String, Error>) -> (r: Result<(), Error>)
    ensures
        match run {
            Ok(_) => r is Ok,
            Err(Error::NotFound) => r is Ok,
            Err(e) => r == Err::<(), Error>(e),
        },
{
    match run {
        Ok(_) => Ok(()),
        Err(Error::NotFound) => Ok(()),
        Err(e) => Err(e),
    }
}

/// The label under which a token for `origin` is stored.
pub fn store_label(origin: &str) -> (r: String)
    ensures
        r@ == "Atrium \u{2014} "@ + origin@,
{
    concat("Atrium \u{2014} ", origin)
}

} // verus!
