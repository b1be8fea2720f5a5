use warg_client::{
    plan_publish, publish_poll, take_publish, upload_failure, uploads_to_make, ApiError, ClientError,
    MissingContent, PollOutcome, PublishEntry, PublishInfo, PublishPlan, RecordState, UploadEndpoint,
};

fn info(head: Option<&str>, entries: Vec<PublishEntry>) -> PublishInfo {
    PublishInfo { name: "acme:widget".to_string(), head: head.map(str::to_string), entries }
}

fn release(version: &str) -> PublishEntry {
    PublishEntry::Release { version: version.to_string(), content: "sha256:00".to_string() }
}

#[test]
fn nothing_to_publish_fails_first() {
    assert_eq!(
        plan_publish(&info(Some("h"), vec![])),
        Err(ClientError::NothingToPublish { name: "acme:widget".to_string() })
    );
    assert_eq!(
        plan_publish(&info(None, vec![])),
        Err(ClientError::NothingToPublish { name: "acme:widget".to_string() })
    );
}

#[test]
fn new_package_with_head_is_refused() {
    assert_eq!(
        plan_publish(&info(Some("h"), vec![PublishEntry::Init, release("1.0.0")])),
        Err(ClientError::CannotInitializePackage { name: "acme:widget".to_string() })
    );
}

#[test]
fn new_package_without_head_is_submitted() {
    let i = info(None, vec![PublishEntry::Init, release("1.0.0")]);
    assert!(i.initializing());
    assert_eq!(plan_publish(&i), Ok(PublishPlan::Submit));
}

#[test]
fn existing_package_with_head_is_submitted() {
    let i = info(Some("h"), vec![release("1.1.0")]);
    assert!(!i.initializing());
    assert_eq!(plan_publish(&i), Ok(PublishPlan::Submit));
}

#[test]
fn existing_package_without_head_syncs_first() {
    let i = info(None, vec![PublishEntry::Yank { version: "1.0.0".to_string() }]);
    assert_eq!(plan_publish(&i), Ok(PublishPlan::SyncForHead));
    let resolved = i.clone().with_synced_head(Some("sha256:ab".to_string())).unwrap();
    assert_eq!(resolved.head.as_deref(), Some("sha256:ab"));
    assert_eq!(resolved.entries, i.entries);
    assert_eq!(
        i.with_synced_head(None).err(),
        Some(ClientError::MustInitializePackage { name: "acme:widget".to_string() })
    );
}

#[test]
fn scenario_new_package_publishes_and_waits() {
    let i = info(None, vec![PublishEntry::Init, release("1.0.0")]);
    assert_eq!(plan_publish(&i), Ok(PublishPlan::Submit));
    let name = i.name.clone();
    let record_id = "sha256:rec".to_string();
    assert_eq!(publish_poll(&name, &record_id, RecordState::Processing), Ok(PollOutcome::Pending));
    assert_eq!(publish_poll(&name, &record_id, RecordState::Published), Ok(PollOutcome::Published));
}

#[test]
fn rejected_and_sourcing_records_fail_the_wait() {
    let name = "acme:widget".to_string();
    let record_id = "sha256:rec".to_string();
    assert_eq!(
        publish_poll(&name, &record_id, RecordState::Rejected { reason: "policy".to_string() }),
        Err(ClientError::PublishRejected { name: name.clone(), record_id: record_id.clone(), reason: "policy".to_string() })
    );
    assert_eq!(publish_poll(&name, &record_id, RecordState::Sourcing), Err(ClientError::PackageMissingContent));
}

#[test]
fn publish_needs_stored_info() {
    assert_eq!(take_publish(None).err(), Some(ClientError::NotPublishing));
    let taken = take_publish(Some(info(None, vec![PublishEntry::Init]))).unwrap();
    assert_eq!(taken.entries, vec![PublishEntry::Init]);
}

fn endpoint(url: &str) -> UploadEndpoint {
    UploadEndpoint { method: "POST".to_string(), url: url.to_string(), headers: vec![] }
}

#[test]
fn uploads_skip_content_without_endpoint() {
    let missing = vec![
        MissingContent { digest: "d0".to_string(), upload: vec![endpoint("u0"), endpoint("u0b")] },
        MissingContent { digest: "d1".to_string(), upload: vec![] },
        MissingContent { digest: "d2".to_string(), upload: vec![endpoint("u2")] },
    ];
    assert_eq!(uploads_to_make(&missing), vec![0, 2]);
    assert!(uploads_to_make(&vec![]).is_empty());
}

#[test]
fn upload_rejection_is_told_apart() {
    let name = "acme:widget".to_string();
    let rid = "sha256:rec".to_string();
    assert_eq!(
        upload_failure(&name, &rid, ApiError::PackageRejection("too big".to_string())),
        ClientError::PublishRejected { name: name.clone(), record_id: rid.clone(), reason: "too big".to_string() }
    );
    assert_eq!(
        upload_failure(&name, &rid, ApiError::Other("timeout".to_string())),
        ClientError::Api(ApiError::Other("timeout".to_string()))
    );
}
