//! Turning what the user named into the address that the overlays show.
//!
//! A network address or a `file://` address is shown as it is. Anything else
//! names a local file, which has to be looked up on disk first; the caller does
//! that and hands in what it found.

use vstd::prelude::*;
use vstd::string::*;

verus! {

/// Whether `content` is shown as it is: it starts with `http://`, `https://`
/// or `file://`.
pub open spec fn is_address(content: Seq<char>) -> bool {
    ||| "http://"@.is_prefix_of(content)
    ||| "https://"@.is_prefix_of(content)
    ||| "file://"@.is_prefix_of(content)
}

/// What looking up a local path on disk gave.
pub enum PathLookup {
    /// Nothing exists at the path.
    Missing,
    /// Something exists there, but its absolute path could not be worked out.
    Unresolvable { reason: String },
    /// The absolute path, free of links and relative parts.
    Canonical { path: String },
}

/// Why no address could be made from what the user named.
#[derive(Debug)]
pub enum ContentResolutionError {
    /// The named file does not exist.
    NotFound { path: String },
    /// The named file exists, but its absolute path could not be worked out.
    Unresolvable { path: String, reason: String },
}

impl ContentResolutionError {
    /// The text shown to the user.
    pub open spec fn message_text(self) -> Seq<char> {
        match self {
            ContentResolutionError::NotFound { path } => "File does not exist: "@ + path@,
            ContentResolutionError::Unresolvable { path, reason } => {
                "Failed to resolve file path '"@ + path@ + "': "@ + reason@
            },
        }
    }

    /// Renders the error for the user.
    pub fn message(&self) -> (text: String)
        ensures
            text@ == self.message_text(),
    {
        match self {
            ContentResolutionError::NotFound { path } => {
                String::from_str("File does not exist: ").concat(path.as_str())
            },
            ContentResolutionError::Unresolvable { path, reason } => {
                String::from_str("Failed to resolve file path '").concat(path.as_str()).concat(
                    "': ",
                ).concat(reason.as_str())
            },
        }
    }
}

/// Whether `text` begins with `prefix`.
pub fn starts_with(text: &str, prefix: &str) -> (found: bool)
    ensures
        found == prefix@.is_prefix_of(text@),
{
    let text_len: usize = text.unicode_len();
    let prefix_len: usize = prefix.unicode_len();
    if prefix_len > text_len {
        return false;
    }
    let mut at: usize = 0;
    while at < prefix_len
        invariant
            at <= prefix_len <= text_len,
            prefix_len == prefix@.len(),
            text_len == text@.len(),
            forall|k: int| 0 <= k < at ==> prefix@[k] == text@[k],
        decreases prefix_len - at,
    {
        if text.get_char(at) != prefix.get_char(at) {
            assert(text@.subrange(0, prefix@.len() as int)[at as int] != prefix@[at as int]);
            return false;
        }
        at += 1;
    }
    assert(prefix@ =~= text@.subrange(0, prefix@.len() as int));
    true
}

/// Whether `content` is shown as it is, so that nothing has to be looked up.
pub fn is_passthrough(content: &str) -> (direct: bool)
    ensures
        direct == is_address(content@),
{
    starts_with(content, "http://") || starts_with(content, "https://") || starts_with(
        content,
        "file://",
    )
}

/// The address to show for `content`. An address passes through unchanged,
/// whatever `lookup` holds. A local path becomes `file://` followed by its
/// canonical path, and fails where the lookup found none.
pub fn resolve_content_url(content: &str, lookup: &PathLookup) -> (resolved: Result<
    String,
    ContentResolutionError,
>)
    ensures
        is_address(content@) ==> (resolved matches Ok(url) && url@ == content@),
        !is_address(content@) ==> match *lookup {
            PathLookup::Canonical { path } => (resolved matches Ok(url) && url@ == "file://"@
                + path@),
            PathLookup::Missing => (resolved matches Err(
                ContentResolutionError::NotFound { path },
            ) && path@ == content@),
            PathLookup::Unresolvable { reason } => (resolved matches Err(
                ContentResolutionError::Unresolvable { path, reason: why },
            ) && path@ == content@ && why@ == reason@),
        },
{
    if is_passthrough(content) {
        return Ok(String::from_str(content));
    }
    match lookup {
        PathLookup::Missing => Err(
            ContentResolutionError::NotFound { path: String::from_str(content) },
        ),
        PathLookup::Unresolvable { reason } => Err(
            ContentResolutionError::Unresolvable {
                path: String::from_str(content),
                reason: reason.clone(),
            },
        ),
        PathLookup::Canonical { path } => Ok(String::from_str("file://").concat(path.as_str())),
    }
}

} // verus!
