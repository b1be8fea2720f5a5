use vstd::prelude::*;
use crate::error::ClientError;

verus! {

/// A release of a package version as the package log records it: its
/// content digest, or none once the version was yanked.
#[derive(Debug, Clone)]
pub struct Release {
    pub version: String,
    pub content: Option<String>,
}

/// Represents information about a downloaded package.
#[derive(Debug, Clone)]
pub struct PackageDownload {
    /// The package version that was downloaded.
    pub version: String,
    /// The digest of the package contents.
    pub digest: String,
    /// The path to the downloaded package contents.
    pub path: String,
}

/// The content digest to download for an exact version, given the release
/// that the package log holds for it. A missing release and a yanked one
/// both mean that the version does not exist.
pub fn resolve_exact(name: &String, version: &String, release: Option<Release>) -> (r: Result<String, ClientError>)
    ensures
        match release {
            Some(Release { version: _, content: Some(digest) }) => r == Ok::<String, ClientError>(digest),
            _ => r == Err::<String, ClientError>(ClientError::PackageVersionDoesNotExist { version: *version, name: *name }),
        },
{
    match release {
        Some(Release { version: _, content: Some(digest) }) => Ok(digest),
        _ => Err(ClientError::PackageVersionDoesNotExist { version: version.clone(), name: name.clone() }),
    }
}

/// The version and content digest to download for the latest release that
/// meets a requirement. No such release is no error: nothing comes back. A
/// matching release is never yanked, so one without content is an
/// inconsistent state.
pub fn resolve_latest(latest: Option<Release>) -> (r: Result<Option<(String, String)>, ClientError>)
    ensures
        match latest {
            None => r == Ok::<Option<(String, String)>, ClientError>(None),
            Some(Release { version, content: Some(digest) }) => r == Ok::<Option<(String, String)>, ClientError>(Some((version, digest))),
            Some(Release { version: _, content: None }) => r is Err && r->Err_0 is Other,
        },
{
    match latest {
        None => Ok(None),
        Some(Release { version, content: Some(digest) }) => Ok(Some((version, digest))),
        Some(Release { version: _, content: None }) => Err(
            ClientError::Other(String::from_str("invalid state: not yanked but missing content")),
        ),
    }
}

/// The path of downloaded content, looked up in content storage after the
/// download was stored: content that is still absent is not found.
pub fn stored_content_path(digest: &String, location: Option<String>) -> (r: Result<String, ClientError>)
    ensures
        match location {
            Some(path) => r == Ok::<String, ClientError>(path),
            None => r == Err::<String, ClientError>(ClientError::ContentNotFound { digest: *digest }),
        },
{
    match location {
        Some(path) => Ok(path),
        None => Err(ClientError::ContentNotFound { digest: digest.clone() }),
    }
}

} // verus!
