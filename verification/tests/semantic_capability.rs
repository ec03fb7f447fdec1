use fm_application::semantic::{
    DocumentId, DocumentIngestion, FakeSemanticCapability, LibraryId, SemanticConceptQuery,
    SemanticError, SemanticHealth, SemanticIngestionState, SemanticJobId, SemanticOperationId,
    SemanticQuery, SemanticRemoteErrorCode, SemanticScope, TenantId, WorkerClientFailure,
    map_remote_error,
};

fn scope(tenant: &str, library: &str) -> SemanticScope {
    SemanticScope::new(TenantId::new(tenant.to_owned()), LibraryId::new(library.to_owned()))
}

fn ingestion(
    tenant: &str,
    library: &str,
    document: &str,
    content: &str,
    metadata: Vec<(String, String)>,
) -> DocumentIngestion {
    DocumentIngestion {
        scope: scope(tenant, library),
        operation_id: SemanticOperationId::new(format!("op-{document}")),
        document_id: DocumentId::new(document.to_owned()),
        metadata,
        media_type: "text/plain".to_owned(),
        content: content.as_bytes().to_vec(),
    }
}

fn query(tenant: &str, library: &str, text: &str, maximum_results: u32) -> SemanticQuery {
    SemanticQuery {
        scope: scope(tenant, library),
        request_id: SemanticOperationId::new("q".to_owned()),
        text: text.to_owned(),
        concept: None,
        maximum_results,
    }
}

fn ids(results: &[fm_application::semantic::SemanticSearchResult]) -> Vec<String> {
    results
        .iter()
        .map(|r| r.document_id.as_str().to_owned())
        .collect()
}

#[test]
fn ingested_documents_are_found_case_insensitively_within_their_scope_only() {
    let mut capability = FakeSemanticCapability::new();
    let job = capability
        .ingest(ingestion("t1", "lib", "doc-b", "Quarterly REPORT on sales", Vec::new()))
        .expect("ingest");
    assert_eq!(job.as_str(), "fake-job-1");
    capability
        .ingest(ingestion("t1", "lib", "doc-a", "another report", Vec::new()))
        .expect("ingest");
    capability
        .ingest(ingestion("t2", "lib", "doc-c", "a report of another tenant", Vec::new()))
        .expect("ingest");

    let results = capability.query(&query("t1", "lib", "report", 10)).expect("query");
    assert_eq!(ids(&results), vec!["doc-a".to_owned(), "doc-b".to_owned()]);
    assert_eq!(f64::from_bits(results[0].score_bits), 1.0);
    assert_eq!(results[1].excerpt, "Quarterly REPORT on sales");

    let other = capability.query(&query("t2", "lib", "REPORT", 10)).expect("query");
    assert_eq!(ids(&other), vec!["doc-c".to_owned()]);

    let limited = capability.query(&query("t1", "lib", "report", 1)).expect("query");
    assert_eq!(ids(&limited), vec!["doc-a".to_owned()]);
    assert!(capability.query(&query("t1", "lib", "report", 0)).expect("query").is_empty());
}

#[test]
fn reingesting_a_document_replaces_it_and_records_a_new_job() {
    let mut capability = FakeSemanticCapability::new();
    capability
        .ingest(ingestion("t", "l", "doc", "first version", Vec::new()))
        .expect("ingest");
    let second = capability
        .ingest(ingestion("t", "l", "doc", "second version", Vec::new()))
        .expect("ingest");
    assert_eq!(second.as_str(), "fake-job-2");
    assert!(capability.query(&query("t", "l", "first", 5)).expect("query").is_empty());
    assert_eq!(
        ids(&capability.query(&query("t", "l", "second", 5)).expect("query")),
        vec!["doc".to_owned()]
    );
    let job = capability
        .ingestion_job(scope("t", "l"), SemanticJobId::new("fake-job-1".to_owned()))
        .expect("first job is kept");
    assert_eq!(job.state, SemanticIngestionState::Completed);
    assert_eq!(job.document_id.as_str(), "doc");
    assert_eq!(job.detail, None);
}

#[test]
fn excerpts_keep_at_most_256_characters() {
    let mut capability = FakeSemanticCapability::new();
    let long = "é".repeat(300);
    capability.ingest(ingestion("t", "l", "doc", &long, Vec::new())).expect("ingest");
    let results = capability.query(&query("t", "l", "", 5)).expect("query");
    assert_eq!(results[0].excerpt.chars().count(), 256);
}

#[test]
fn concept_queries_admit_only_documents_with_a_listed_concept() {
    let mut capability = FakeSemanticCapability::new();
    capability
        .ingest(ingestion(
            "t",
            "l",
            "tagged",
            "alpha",
            vec![("concept_uri".to_owned(), "urn:c:1".to_owned())],
        ))
        .expect("ingest");
    capability
        .ingest(ingestion("t", "l", "untagged", "alpha", Vec::new()))
        .expect("ingest");
    let mut q = query("t", "l", "alpha", 10);
    q.concept = Some(SemanticConceptQuery {
        vocabulary_id: "v".to_owned(),
        concept_uris: vec!["urn:c:0".to_owned(), "urn:c:1".to_owned()],
        root_id: None,
        workspace_id: None,
        include_unavailable: false,
        offset: 0,
    });
    let results = capability.query(&q).expect("query");
    assert_eq!(ids(&results), vec!["tagged".to_owned()]);
    assert_eq!(
        results[0].metadata,
        vec![("concept_uri".to_owned(), "urn:c:1".to_owned())]
    );
}

#[test]
fn jobs_and_events_are_scoped_and_unknown_jobs_are_invalid() {
    let mut capability = FakeSemanticCapability::new();
    for n in 0..11 {
        capability
            .ingest(ingestion("t", "l", &format!("doc-{n}"), "x", Vec::new()))
            .expect("ingest");
    }
    capability.ingest(ingestion("u", "l", "other", "x", Vec::new())).expect("ingest");

    let events = capability.events(scope("t", "l")).expect("events");
    assert_eq!(events.len(), 11);
    assert_eq!(events[0].operation_id.as_str(), "fake-job-1");
    assert_eq!(events[1].operation_id.as_str(), "fake-job-10");
    assert_eq!(events[2].operation_id.as_str(), "fake-job-11");
    assert!(events.iter().all(|e| e.phase == "completed"));
    assert_eq!(capability.events(scope("u", "l")).expect("events").len(), 1);

    match capability.ingestion_job(scope("u", "l"), SemanticJobId::new("fake-job-1".to_owned())) {
        Err(e) => {
            assert_eq!(e, SemanticError::InvalidRequest("ingestion job was not found".to_owned()));
            assert_eq!(e.message(), "invalid semantic request: ingestion job was not found");
        }
        Ok(job) => panic!("job of another scope was visible: {job:?}"),
    }
    assert_eq!(
        capability.cancel(SemanticOperationId::new("fake-job-1".to_owned())),
        Ok(false)
    );
}

#[test]
fn shutdown_drains_the_capability() {
    let mut capability = FakeSemanticCapability::new();
    assert_eq!(capability.health(), Ok(SemanticHealth::Serving));
    capability.ingest(ingestion("t", "l", "doc", "kept", Vec::new())).expect("ingest");
    assert_eq!(capability.shutdown(), Ok(()));
    assert_eq!(capability.health(), Ok(SemanticHealth::Draining));
    assert_eq!(
        capability.ingest(ingestion("t", "l", "doc2", "x", Vec::new())),
        Err(SemanticError::Unavailable)
    );
    assert!(matches!(
        capability.query(&query("t", "l", "kept", 5)),
        Err(SemanticError::Unavailable)
    ));
    assert_eq!(capability.events(scope("t", "l")).expect("events").len(), 1);
}

#[test]
fn semantic_errors_render_their_messages() {
    assert_eq!(SemanticError::Unavailable.message(), "semantic capability is unavailable");
    assert_eq!(
        SemanticError::ShutdownBlocked { remaining_clients: 3 }.message(),
        "semantic worker shutdown requires 3 other client(s) to disconnect"
    );
    assert_eq!(
        SemanticError::LimitExceeded("too big".to_owned()).message(),
        "semantic resource limit exceeded: too big"
    );
    assert_eq!(
        SemanticError::ProtocolViolation.message(),
        "semantic worker returned an invalid protocol response"
    );
}

#[test]
fn worker_failures_map_to_semantic_errors() {
    assert_eq!(
        map_remote_error(SemanticRemoteErrorCode::Internal, "boom".to_owned()),
        SemanticError::WorkerFailure("boom".to_owned())
    );
    assert_eq!(
        map_remote_error(SemanticRemoteErrorCode::Unspecified, "x".to_owned()),
        SemanticError::ProtocolViolation
    );
    assert_eq!(
        SemanticError::from_client_failure(WorkerClientFailure::FrameTooLarge),
        SemanticError::LimitExceeded("semantic message exceeds size limit".to_owned())
    );
    assert_eq!(
        SemanticError::from_client_failure(WorkerClientFailure::Incompatible {
            code: SemanticRemoteErrorCode::Cancelled,
            message: "m".to_owned(),
        }),
        SemanticError::ProtocolViolation
    );
    assert_eq!(
        SemanticError::from_client_failure(WorkerClientFailure::CapabilityUnavailable),
        SemanticError::Unavailable
    );
    assert_eq!(
        SemanticError::from_client_failure(WorkerClientFailure::ShutdownTimedOut),
        SemanticError::WorkerFailure("worker did not stop within the shutdown deadline".to_owned())
    );
}
