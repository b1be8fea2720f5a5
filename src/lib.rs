//! A client library for Warg component registries: the decisions of the
//! checkpoint synchronization protocol, of publishing and of downloading,
//! stated and proved over plain values.
//!
//! Network and storage work stays with the caller, which hands each step of
//! the library the values it fetched or loaded.

pub mod checkpoint;
pub mod client;
pub mod download;
pub mod error;
pub mod publish;
pub mod replay;
pub mod sync;

pub use checkpoint::{verify_progression, Checkpoint, Progression};
pub use client::{Client, Config, RegistryUrl, StorageLockResult, StoragePaths};
pub use download::{resolve_exact, resolve_latest, stored_content_path, PackageDownload, Release};
pub use error::{ApiError, ClientError};
pub use publish::{
    plan_publish, publish_poll, take_publish, upload_failure, uploads_to_make, MissingContent,
    PollOutcome, PublishEntry, PublishInfo, PublishPlan, RecordState, UploadEndpoint,
};
pub use replay::{replay_records, FetchedRecord, LogHead};
pub use sync::{
    signature_verdict, FetchLogsRequest, FetchLogsResponse, LogLeaf, OperatorInfo, PackageInfo,
    PackageRecords, SignatureCheck, SyncPhase, Synchronizer,
};
