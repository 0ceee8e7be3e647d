use phronesis::error::PhronesisError;
use phronesis::server::{
    map_enqueue_request, page_limit, page_offset, parse_artifact_kind_opt,
    parse_artifact_status_opt, parse_projection_job_status_opt, parse_projection_kind_filter,
    parse_projection_kind_filter_opt, projection_error_code, top_k_or_default,
    ProjectionEnqueueToolRequest, ProjectionToolScope, ProjectionToolWatermark,
};
use phronesis::types::{ArtifactKind, ArtifactStatus, ProjectionJobStatus, ProjectionKindFilter};

#[test]
fn defaults_of_paging_and_top_k() {
    assert_eq!(top_k_or_default(None), 5);
    assert_eq!(top_k_or_default(Some(9)), 9);
    assert_eq!(page_limit(None), 50);
    assert_eq!(page_limit(Some(0)), 1);
    assert_eq!(page_limit(Some(7)), 7);
    assert_eq!(page_offset(None), 0);
    assert_eq!(page_offset(Some(3)), 3);
}

#[test]
fn kind_names_parse() {
    assert_eq!(parse_projection_kind_filter("wisdom"), Ok(ProjectionKindFilter::Wisdom));
    assert_eq!(parse_projection_kind_filter("temporal_rollup"), Ok(ProjectionKindFilter::TemporalRollup));
    assert_eq!(parse_projection_kind_filter("all"), Ok(ProjectionKindFilter::All));
    assert_eq!(
        parse_projection_kind_filter("Wisdom"),
        Err(PhronesisError::Validation("invalid projection kind: Wisdom".to_string()))
    );
    assert_eq!(parse_projection_kind_filter_opt(None), Ok(None));
    assert_eq!(parse_projection_kind_filter_opt(Some("report")), Ok(Some(ProjectionKindFilter::Report)));
    assert!(parse_projection_kind_filter_opt(Some("x")).is_err());
}

#[test]
fn artifact_and_job_names_parse() {
    assert_eq!(parse_artifact_kind_opt(Some("decision")), Ok(Some(ArtifactKind::Decision)));
    assert_eq!(parse_artifact_kind_opt(None), Ok(None));
    assert_eq!(
        parse_artifact_kind_opt(Some("all")),
        Err(PhronesisError::Validation("invalid artifact kind: all".to_string()))
    );
    assert_eq!(parse_artifact_status_opt(Some("stale")), Ok(Some(ArtifactStatus::Stale)));
    assert_eq!(
        parse_artifact_status_opt(Some("fresh")),
        Err(PhronesisError::Validation("invalid artifact status: fresh".to_string()))
    );
    assert_eq!(parse_projection_job_status_opt(Some("cancelled")), Ok(Some(ProjectionJobStatus::Cancelled)));
    assert_eq!(parse_projection_job_status_opt(None), Ok(None));
    assert_eq!(
        parse_projection_job_status_opt(Some("done")),
        Err(PhronesisError::Validation("invalid projection job status: done".to_string()))
    );
}

fn tool_request(kind: &str) -> ProjectionEnqueueToolRequest {
    ProjectionEnqueueToolRequest {
        kind: kind.to_string(),
        scope: ProjectionToolScope {
            agent: "alice".to_string(),
            source_paths: vec!["docs/a.md".to_string()],
            granularity: Some("weekly".to_string()),
            period_start: None,
            period_end: Some("2026-01-07".to_string()),
        },
        idempotency_key: "alice:k".to_string(),
        source_watermark: ProjectionToolWatermark {
            content_hash: "h".to_string(),
            latest_mtime: "m".to_string(),
            source_count: 2,
        },
    }
}

#[test]
fn enqueue_tool_requests_map_to_payloads() {
    let p = map_enqueue_request(tool_request("decision")).unwrap();
    assert_eq!(p.kind, ProjectionKindFilter::Decision);
    assert_eq!(p.scope.agent, "alice");
    assert_eq!(p.scope.source_paths, vec!["docs/a.md".to_string()]);
    assert_eq!(p.scope.granularity, Some("weekly".to_string()));
    assert_eq!(p.scope.period_start, None);
    assert_eq!(p.scope.period_end, Some("2026-01-07".to_string()));
    assert_eq!(p.idempotency_key, "alice:k");
    assert_eq!(p.source_watermark.source_count, 2);
    assert_eq!(
        map_enqueue_request(tool_request("nope")),
        Err(PhronesisError::Validation("invalid projection kind: nope".to_string()))
    );
}

#[test]
fn error_codes_and_retryability() {
    let v = PhronesisError::Validation("x".to_string());
    let n = PhronesisError::NotFound("x".to_string());
    let e = PhronesisError::Embedding("x".to_string());
    let i = PhronesisError::Io("x".to_string());
    let j = PhronesisError::Json("x".to_string());
    let c = PhronesisError::Config("x".to_string());
    assert_eq!(projection_error_code(&v), ("invalid_request", false));
    assert_eq!(projection_error_code(&n), ("not_found", false));
    assert_eq!(projection_error_code(&e), ("unavailable", true));
    assert_eq!(projection_error_code(&i), ("internal", true));
    assert_eq!(projection_error_code(&j), ("internal", false));
    assert_eq!(projection_error_code(&c), ("internal", false));
}

#[test]
fn error_messages_name_their_kind() {
    assert_eq!(PhronesisError::Io("disk".to_string()).message(), "IO error: disk");
    assert_eq!(PhronesisError::Embedding("down".to_string()).message(), "Embedding error: down");
    assert_eq!(PhronesisError::Validation("bad".to_string()).message(), "Validation warning: bad");
    assert_eq!(PhronesisError::NotFound("f".to_string()).message(), "Not found: f");
    assert_eq!(PhronesisError::Json("eof".to_string()).message(), "JSON error: eof");
    assert_eq!(PhronesisError::Config("k".to_string()).message(), "Config error: k");
}
