//! Power and session commands that a trusted peer may send, and the check
//! on URLs that a peer asks this machine to open. Running the commands is
//! done by the application with the platform's tools.

use vstd::prelude::*;
use crate::text::chars_of;

verus! {

/// A command sent by a trusted peer.
#[derive(Debug, Clone)]
pub enum RemoteCommand {
    Shutdown,
    Restart,
    SignOut,
    OpenUrl(String),
}

/// The kind of a command failure.
#[derive(Debug, Clone, Copy, PartialEq, Eq, Structural)]
pub enum CommandErrorKind {
    /// The request itself is not acceptable.
    InvalidInput,
    /// This platform cannot carry the command out.
    Unsupported,
    /// Carrying the command out failed.
    Other,
}

/// A failed remote command.
#[derive(Debug, Clone)]
pub struct CommandError {
    pub kind: CommandErrorKind,
    pub message: String,
}

impl CommandError {
    /// The kind of failure.
    pub fn kind(&self) -> (k: CommandErrorKind)
        ensures
            k == self.kind,
    {
        self.kind
    }
}

/// Whether `s` begins with `p`.
pub open spec fn has_prefix(s: Seq<char>, p: Seq<char>) -> bool {
    p.len() <= s.len() && s.subrange(0, p.len() as int) == p
}

pub(crate) fn starts_with_chars(s: &[char], p: &[char]) -> (b: bool)
    ensures
        b == has_prefix(s@, p@),
{
    if p.len() > s.len() {
        return false;
    }
    let mut i: usize = 0;
    while i < p.len()
        invariant
            0 <= i <= p@.len() <= s@.len(),
            forall|j: int| 0 <= j < i ==> s@[j] == p@[j],
        decreases p@.len() - i,
    {
        if s[i] != p[i] {
            assert(s@.subrange(0, p@.len() as int)[i as int] != p@[i as int]);
            return false;
        }
        i = i + 1;
    }
    assert(s@.subrange(0, p@.len() as int) =~= p@);
    true
}

/// Only `http://` and `https://` URLs may be opened on a peer's request.
pub open spec fn url_may_be_opened(url: Seq<char>) -> bool {
    has_prefix(url, "http://"@) || has_prefix(url, "https://"@)
}

/// Checks a URL that a peer asks to open: an `InvalidInput` error unless it
/// is an `http://` or `https://` URL.
pub fn validate_open_url(url: &str) -> (r: Result<(), CommandError>)
    ensures
        r is Ok <==> url_may_be_opened(url@),
        r matches Err(e) ==> e.kind == CommandErrorKind::InvalidInput && e.message@
            == "Only http and https URLs can be opened remotely"@,
{
    let cs = chars_of(url);
    let http = chars_of("http://");
    let https = chars_of("https://");
    if !starts_with_chars(cs.as_slice(), http.as_slice()) && !starts_with_chars(
        cs.as_slice(),
        https.as_slice(),
    ) {
        return Err(
            CommandError {
                kind: CommandErrorKind::InvalidInput,
                message: String::from_str("Only http and https URLs can be opened remotely"),
            },
        );
    }
    Ok(())
}

} // verus!
