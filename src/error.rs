use vstd::prelude::*;

verus! {

/// An error reported by the registry's API, reduced to what the client's
/// decisions read.
#[derive(Debug, Clone, PartialEq, Eq)]
pub enum ApiError {
    /// A fetch named a log that the registry does not know.
    FetchLogNotFound(String),
    /// A package operation named a log that the registry does not know.
    PackageLogNotFound(String),
    /// The registry rejected a package operation by policy.
    PackageRejection(String),
    /// Any other failure of transport, proof or protocol.
    Other(String),
}

/// Represents an error returned by Warg registry clients.
#[derive(Debug, Clone, PartialEq, Eq)]
pub enum ClientError {
    /// No default registry server URL is configured.
    NoDefaultUrl,
    /// Resetting the registry's local state failed.
    ResettingRegistryLocalStateFailed,
    /// Clearing the local content cache failed.
    ClearContentCacheFailed,
    /// The checkpoint signature failed verification.
    InvalidCheckpointSignature,
    /// The checkpoint names a key that the operator log does not hold.
    InvalidCheckpointKeyId { key_id: String },
    /// The server did not provide operator records.
    NoOperatorRecords,
    /// The operator log failed validation.
    OperatorValidationFailed { inner: String },
    /// The package already exists and cannot be initialized.
    CannotInitializePackage { name: String },
    /// The package must be initialized before publishing.
    MustInitializePackage { name: String },
    /// There is no publish operation in progress.
    NotPublishing,
    /// The package has no records to publish.
    NothingToPublish { name: String },
    /// The package does not exist.
    PackageDoesNotExist { name: String },
    /// The package version does not exist.
    PackageVersionDoesNotExist { version: String, name: String },
    /// The package log failed validation.
    PackageValidationFailed { name: String, inner: String },
    /// Content was not found in client storage.
    ContentNotFound { digest: String },
    /// The package log is empty and cannot be validated.
    PackageLogEmpty { name: String },
    /// A publish operation was rejected.
    PublishRejected { name: String, record_id: String, reason: String },
    /// The package is still missing content after all content was uploaded.
    PackageMissingContent,
    /// The registry's latest checkpoint is shorter than one received before.
    CheckpointLogLengthRewind { from: u64, to: u64 },
    /// The registry's checkpoint has the length of one received before but
    /// another log root or map root.
    CheckpointChangedLogRootOrMapRoot { log_length: u64 },
    /// An error occurred during an API operation.
    Api(ApiError),
    /// An error occurred while performing a client operation.
    Other(String),
}

/// The log id that a "log not found" error names, if it is one.
pub open spec fn missing_log(e: ApiError) -> Option<Seq<char>> {
    match e {
        ApiError::FetchLogNotFound(id) => Some(id@),
        ApiError::PackageLogNotFound(id) => Some(id@),
        _ => None,
    }
}

/// The position of the first entry of `lookup` whose log id is `id`.
pub open spec fn first_match(lookup: Seq<(String, String)>, id: Seq<char>) -> Option<int>
    decreases lookup.len(),
{
    if lookup.len() == 0 {
        None
    } else {
        match first_match(lookup.drop_last(), id) {
            Some(i) => Some(i),
            None => if lookup.last().0@ == id {
                Some(lookup.len() - 1)
            } else {
                None
            },
        }
    }
}

/// The first position of `lookup` whose log id is `id`, found by a scan.
pub fn find_log(lookup: &Vec<(String, String)>, id: &String) -> (r: Option<usize>)
    ensures
        match r {
            Some(i) => i < lookup@.len() && first_match(lookup@, id@) == Some(i as int),
            None => first_match(lookup@, id@) is None,
        },
{
    let mut i: usize = 0;
    while i < lookup.len()
        invariant
            i <= lookup@.len(),
            first_match(lookup@.subrange(0, i as int), id@) is None,
        decreases lookup@.len() - i,
    {
        assert(lookup@.subrange(0, i as int + 1).drop_last() =~= lookup@.subrange(0, i as int));
        if lookup[i].0 == *id {
            proof {
                lemma_first_match_prefix(lookup@, id@, i as int + 1);
            }
            return Some(i);
        }
        i = i + 1;
    }
    assert(lookup@.subrange(0, i as int) =~= lookup@);
    None
}

/// A match found in a prefix is the match of the whole sequence.
pub proof fn lemma_first_match_prefix(s: Seq<(String, String)>, id: Seq<char>, n: int)
    requires
        0 <= n <= s.len(),
        first_match(s.subrange(0, n), id) is Some,
    ensures
        first_match(s, id) == first_match(s.subrange(0, n), id),
    decreases s.len() - n,
{
    if n < s.len() {
        assert(s.subrange(0, n + 1).drop_last() =~= s.subrange(0, n));
        lemma_first_match_prefix(s, id, n + 1);
    } else {
        assert(s.subrange(0, n) =~= s);
    }
}

/// What `translate_log_not_found` turns an API error into.
pub open spec fn translated(e: ApiError, lookup: Seq<(String, String)>) -> ClientError {
    match missing_log(e) {
        Some(id) => match first_match(lookup, id) {
            Some(i) => ClientError::PackageDoesNotExist { name: lookup[i].1 },
            None => ClientError::Api(e),
        },
        None => ClientError::Api(e),
    }
}

impl ClientError {
    /// Turns a registry "log not found" error into "package does not exist"
    /// where `lookup`, a list of (log id, package name) pairs, knows the log;
    /// every other error is passed on as an API error.
    pub fn translate_log_not_found(e: ApiError, lookup: &Vec<(String, String)>) -> (r: ClientError)
        ensures
            r == translated(e, lookup@),
    {
        let found = match &e {
            ApiError::FetchLogNotFound(id) => find_log(lookup, id),
            ApiError::PackageLogNotFound(id) => find_log(lookup, id),
            _ => None,
        };
        match found {
            Some(i) => ClientError::PackageDoesNotExist { name: lookup[i].1.clone() },
            None => ClientError::Api(e),
        }
    }
}

} // verus!
