use vstd::prelude::*;
use crate::error::{ApiError, ClientError};

verus! {

/// One pending edit of a package log.
#[derive(Debug, Clone, PartialEq, Eq)]
pub enum PublishEntry {
    /// Initialize the package log.
    Init,
    /// Release a version with the content of the given digest.
    Release { version: String, content: String },
    /// Yank a released version.
    Yank { version: String },
}

/// Pending local edits of one package, not yet submitted.
#[derive(Debug, Clone)]
pub struct PublishInfo {
    /// The package's name.
    pub name: String,
    /// The record the edits follow; absent for a new package, or where the
    /// current head is to be discovered by synchronizing.
    pub head: Option<String>,
    /// The edits, in order.
    pub entries: Vec<PublishEntry>,
}

impl PublishInfo {
    /// The edits initialize the package.
    pub open spec fn is_initializing(self) -> bool {
        exists|i: int| 0 <= i < self.entries@.len() && self.entries@[i] is Init
    }

    /// Whether the edits initialize the package.
    pub fn initializing(&self) -> (r: bool)
        ensures
            r == self.is_initializing(),
    {
        let mut i: usize = 0;
        while i < self.entries.len()
            invariant
                i <= self.entries@.len(),
                forall|m: int| 0 <= m < i ==> !(self.entries@[m] is Init),
            decreases self.entries@.len() - i,
        {
            if let PublishEntry::Init = &self.entries[i] {
                return true;
            }
            i = i + 1;
        }
        false
    }
}

/// What a publish does next, once its edits passed the checks made before
/// any network call.
#[derive(Debug, Clone, Copy, PartialEq, Eq)]
pub enum PublishPlan {
    /// Sign and submit the record as it stands.
    Submit,
    /// Synchronize the package to the latest checkpoint to learn its head,
    /// then decide with `with_synced_head`.
    SyncForHead,
}

/// The verdict on a new package (`initializing`) with or without a known
/// head.
pub open spec fn head_verdict(name: String, initializing: bool, has_head: bool) -> Result<PublishPlan, ClientError> {
    if initializing && has_head {
        Err(ClientError::CannotInitializePackage { name })
    } else if !initializing && !has_head {
        Err(ClientError::MustInitializePackage { name })
    } else {
        Ok(PublishPlan::Submit)
    }
}

/// What `plan_publish` returns for `info`.
pub open spec fn plan_publish_spec(info: PublishInfo) -> Result<PublishPlan, ClientError> {
    if info.entries@.len() == 0 {
        Err(ClientError::NothingToPublish { name: info.name })
    } else if !info.is_initializing() && info.head is None {
        Ok(PublishPlan::SyncForHead)
    } else {
        head_verdict(info.name, info.is_initializing(), info.head is Some)
    }
}

/// Decides how a publish of `info` proceeds. Nothing to publish fails at
/// once; a new package must have no head; an existing package without an
/// explicit head must first learn it by synchronizing.
pub fn plan_publish(info: &PublishInfo) -> (r: Result<PublishPlan, ClientError>)
    ensures
        r == plan_publish_spec(*info),
{
    if info.entries.len() == 0 {
        return Err(ClientError::NothingToPublish { name: info.name.clone() });
    }
    let initializing = info.initializing();
    if !initializing && info.head.is_none() {
        return Ok(PublishPlan::SyncForHead);
    }
    decide_head(&info.name, initializing, info.head.is_some())
}

fn decide_head(name: &String, initializing: bool, has_head: bool) -> (r: Result<PublishPlan, ClientError>)
    ensures
        r == head_verdict(*name, initializing, has_head),
{
    if initializing && has_head {
        Err(ClientError::CannotInitializePackage { name: name.clone() })
    } else if !initializing && !has_head {
        Err(ClientError::MustInitializePackage { name: name.clone() })
    } else {
        Ok(PublishPlan::Submit)
    }
}

impl PublishInfo {
    /// Takes the head that synchronizing found (none: the package log has no
    /// record) as the record the edits follow, and checks the edits against
    /// it as `plan_publish` does.
    pub fn with_synced_head(self, head: Option<String>) -> (r: Result<PublishInfo, ClientError>)
        ensures
            head_verdict(self.name, self.is_initializing(), head is Some) is Err ==> r == Err::<PublishInfo, ClientError>(
                head_verdict(self.name, self.is_initializing(), head is Some)->Err_0),
            head_verdict(self.name, self.is_initializing(), head is Some) is Ok ==> r == Ok::<PublishInfo, ClientError>(
                PublishInfo { head, ..self }),
    {
        let initializing = self.initializing();
        match decide_head(&self.name, initializing, head.is_some()) {
            Ok(_) => Ok(PublishInfo { name: self.name, head, entries: self.entries }),
            Err(e) => Err(e),
        }
    }
}

/// The publish info that storage held, if any: without one there is nothing
/// being published.
pub fn take_publish(stored: Option<PublishInfo>) -> (r: Result<PublishInfo, ClientError>)
    ensures
        match stored {
            Some(info) => r == Ok::<PublishInfo, ClientError>(info),
            None => r == Err::<PublishInfo, ClientError>(ClientError::NotPublishing),
        },
{
    match stored {
        Some(info) => Ok(info),
        None => Err(ClientError::NotPublishing),
    }
}

/// Where and how the registry accepts an upload of missing content.
#[derive(Debug, Clone)]
pub struct UploadEndpoint {
    pub method: String,
    pub url: String,
    pub headers: Vec<(String, String)>,
}

/// Content that the registry reported missing after a record was submitted,
/// with the endpoints that accept it.
#[derive(Debug, Clone)]
pub struct MissingContent {
    pub digest: String,
    pub upload: Vec<UploadEndpoint>,
}

/// The positions of the missing content that can be uploaded: those with at
/// least one endpoint, in order.
pub open spec fn upload_positions(missing: Seq<MissingContent>) -> Seq<usize>
    decreases missing.len(),
{
    if missing.len() == 0 {
        Seq::empty()
    } else {
        let prior = upload_positions(missing.drop_last());
        if missing.last().upload@.len() > 0 {
            prior.push((missing.len() - 1) as usize)
        } else {
            prior
        }
    }
}

/// Which missing content to upload: each item with an endpoint, to its
/// first endpoint; an item without one is skipped.
pub fn uploads_to_make(missing: &Vec<MissingContent>) -> (r: Vec<usize>)
    ensures
        r@ == upload_positions(missing@),
{
    let mut out: Vec<usize> = Vec::new();
    let mut i: usize = 0;
    while i < missing.len()
        invariant
            i <= missing@.len(),
            out@ == upload_positions(missing@.subrange(0, i as int)),
        decreases missing@.len() - i,
    {
        assert(missing@.subrange(0, i as int + 1).drop_last() =~= missing@.subrange(0, i as int));
        if missing[i].upload.len() > 0 {
            out.push(i);
        }
        i = i + 1;
    }
    assert(missing@.subrange(0, i as int) =~= missing@);
    out
}

/// The error an upload failure of a record becomes: a policy rejection by
/// the registry is told apart from other failures.
pub fn upload_failure(name: &String, record_id: &String, e: ApiError) -> (r: ClientError)
    ensures
        match e {
            ApiError::PackageRejection(reason) => r == ClientError::PublishRejected { name: *name, record_id: *record_id, reason },
            _ => r == ClientError::Api(e),
        },
{
    match e {
        ApiError::PackageRejection(reason) => ClientError::PublishRejected {
            name: name.clone(),
            record_id: record_id.clone(),
            reason,
        },
        other => ClientError::Api(other),
    }
}

/// A submitted record's state as the registry reports it.
#[derive(Debug, Clone, PartialEq, Eq)]
pub enum RecordState {
    /// Still being processed.
    Processing,
    /// Waiting for content that was not uploaded.
    Sourcing,
    /// Published.
    Published,
    /// Rejected, for the given reason.
    Rejected { reason: String },
}

/// What waiting for a publish does after one look at the record's state.
#[derive(Debug, Clone, Copy, PartialEq, Eq)]
pub enum PollOutcome {
    /// The record is published: the wait is over.
    Published,
    /// The record is still processing: sleep for the interval, look again.
    Pending,
}

/// Decides one step of waiting for a record to be published: published ends
/// the wait, a rejection fails with its reason, missing content fails, and
/// processing goes on waiting with no bound.
pub fn publish_poll(name: &String, record_id: &String, state: RecordState) -> (r: Result<PollOutcome, ClientError>)
    ensures
        match state {
            RecordState::Processing => r == Ok::<PollOutcome, ClientError>(PollOutcome::Pending),
            RecordState::Sourcing => r == Err::<PollOutcome, ClientError>(ClientError::PackageMissingContent),
            RecordState::Published => r == Ok::<PollOutcome, ClientError>(PollOutcome::Published),
            RecordState::Rejected { reason } => r == Err::<PollOutcome, ClientError>(
                ClientError::PublishRejected { name: *name, record_id: *record_id, reason },
            ),
        },
{
    match state {
        RecordState::Processing => Ok(PollOutcome::Pending),
        RecordState::Sourcing => Err(ClientError::PackageMissingContent),
        RecordState::Published => Ok(PollOutcome::Published),
        RecordState::Rejected { reason } => Err(ClientError::PublishRejected {
            name: name.clone(),
            record_id: record_id.clone(),
            reason,
        }),
    }
}

/// A publish with nothing to publish fails before any network call, and an
/// explicit head on a new package is refused as an initialization conflict.
pub proof fn lemma_publish_preconditions(info: PublishInfo)
    ensures
        info.entries@.len() == 0 ==> plan_publish_spec(info) == Err::<PublishPlan, ClientError>(ClientError::NothingToPublish { name: info.name }),
        info.entries@.len() > 0 && info.is_initializing() && info.head is Some ==> plan_publish_spec(info)
            == Err::<PublishPlan, ClientError>(ClientError::CannotInitializePackage { name: info.name }),
{
}

} // verus!
