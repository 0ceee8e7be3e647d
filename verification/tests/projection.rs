use phronesis::error::PhronesisError;
use phronesis::fs::projection::{
    artifact_location, artifact_path, artifacts_dir, job_path, jobs_dir, projection_root,
    artifact_id_for, artifact_kind_from_id, content_hash, kind_filter_to_artifact,
    list_artifacts, list_jobs, normalized_terms, plan_enqueue, refresh_stale, sanitize_token,
    enqueue, search_artifacts, should_emit_rollup, stable_id, str_eq, validate_source_path, ArtifactBody,
    ArtifactDraft, ArtifactRecord,
};
use phronesis::fs::sources::{source_document, SourceDocument};
use phronesis::types::{
    ArtifactKind, ArtifactStatus, ProjectionEnqueueRequestPayload, ProjectionJob,
    ProjectionJobStatus, ProjectionKindFilter, ProjectionRefreshStaleRequest, ProjectionScope,
    ProjectionSearchArtifactsRequest, SourceWatermark,
};

const NOW: &str = "2026-05-28T09:00:00+00:00";
const TODAY: &str = "2026-05-28";

fn watermark() -> SourceWatermark {
    SourceWatermark {
        content_hash: "hash".to_string(),
        latest_mtime: NOW.to_string(),
        source_count: 1,
    }
}

fn request(
    kind: ProjectionKindFilter,
    path: &str,
    granularity: Option<&str>,
    key: &str,
) -> ProjectionEnqueueRequestPayload {
    ProjectionEnqueueRequestPayload {
        kind,
        scope: ProjectionScope {
            agent: "alice".to_string(),
            source_paths: vec![path.to_string()],
            granularity: granularity.map(|g| g.to_string()),
            period_start: granularity.map(|_| TODAY.to_string()),
            period_end: granularity.map(|_| TODAY.to_string()),
        },
        idempotency_key: key.to_string(),
        source_watermark: watermark(),
    }
}

fn body_text(body: &ArtifactBody) -> (String, Option<String>, Option<String>, Option<String>) {
    match body {
        ArtifactBody::Wisdom { title, summary, .. } => {
            (format!("{{\"title\":\"{}\",\"summary\":\"{}\"}}", title, summary), None, None, None)
        }
        ArtifactBody::Decision { title, summary, .. } => {
            (format!("{{\"title\":\"{}\",\"summary\":\"{}\"}}", title, summary), None, None, None)
        }
        ArtifactBody::Report { title, summary, .. } => {
            (format!("{{\"title\":\"{}\",\"summary\":\"{}\"}}", title, summary), None, None, None)
        }
        ArtifactBody::TemporalRollup {
            granularity,
            period_start,
            period_end,
            summary,
            ..
        } => (
            format!("{{\"granularity\":\"{}\",\"summary\":\"{}\"}}", granularity, summary),
            Some(granularity.clone()),
            Some(period_start.clone()),
            Some(period_end.clone()),
        ),
    }
}

fn record_of(d: &ArtifactDraft) -> ArtifactRecord {
    let (text, granularity, period_start, period_end) = body_text(&d.body);
    ArtifactRecord {
        dir_kind: d.kind,
        kind: d.kind,
        agent: d.agent.clone(),
        status: d.status,
        created_at: d.created_at.clone(),
        idempotency_key: d.idempotency_key.clone(),
        source_watermark: d.source_watermark.clone(),
        body_text: text,
        granularity,
        period_start,
        period_end,
        claims: d.claims.clone(),
        evidence: d.evidence.clone(),
    }
}

fn job(agent: &str, requested_at: &str, kind: ProjectionKindFilter, status: ProjectionJobStatus) -> ProjectionJob {
    ProjectionJob {
        job_id: format!("job_{}", requested_at),
        agent: agent.to_string(),
        kind,
        status,
        requested_at: requested_at.to_string(),
        started_at: None,
        finished_at: None,
        retry_count: 0,
        retry_history: vec![],
        last_error: None,
        watermark_before: watermark(),
        watermark_after: None,
        stale: false,
        stale_reason: None,
        idempotency_key: "k".to_string(),
        produced_artifact_ids: vec![],
    }
}

#[test]
fn projection_enqueue_persists_job_and_artifacts() {
    let sources = vec![source_document(
        "raw/semantic/trace.md".to_string(),
        "# Trace\n\nProjection runtime test".to_string(),
    )];
    let req = request(ProjectionKindFilter::Wisdom, "raw/semantic/trace.md", None, "alice:wisdom:test");
    assert!(validate_source_path("raw/semantic/trace.md").is_ok());
    let plan = plan_enqueue(&req, &sources, NOW, TODAY);
    assert!(plan.result.accepted);
    assert_eq!(plan.job.status, ProjectionJobStatus::Succeeded);
    assert_eq!(plan.job.produced_artifact_ids.len(), 1);
    assert_eq!(plan.artifacts.len(), 1);
    assert_eq!(plan.artifacts[0].kind, ArtifactKind::Wisdom);
    assert_eq!(plan.artifacts[0].artifact_id, plan.job.produced_artifact_ids[0]);
    assert_eq!(
        artifact_kind_from_id(&plan.job.produced_artifact_ids[0]).unwrap(),
        ArtifactKind::Wisdom
    );
}

#[test]
fn projection_search_and_refresh_work() {
    let sources = vec![source_document(
        "raw/temporal/daily/2026-05-28.md".to_string(),
        "deployment follow-up todo".to_string(),
    )];
    let req = request(
        ProjectionKindFilter::All,
        "raw/temporal/daily/2026-05-28.md",
        Some("daily"),
        "alice:all:test",
    );
    let plan = plan_enqueue(&req, &sources, NOW, TODAY);
    let records: Vec<ArtifactRecord> = plan.artifacts.iter().map(record_of).collect();

    let search = search_artifacts(
        &records,
        &ProjectionSearchArtifactsRequest {
            agent: "alice".to_string(),
            q: "deployment follow-up".to_string(),
            kind: Some(ArtifactKind::TemporalRollup),
            limit: Some(10),
        },
    );
    assert_eq!(search.total_count, 1);

    let artifacts = list_artifacts(
        &records,
        "alice",
        Some(ArtifactKind::TemporalRollup),
        None,
        Some("daily"),
        10,
        0,
    );
    assert_eq!(artifacts.total_count, 1);

    let refresh = refresh_stale(
        &records,
        &ProjectionRefreshStaleRequest {
            agent: "alice".to_string(),
            kind: ProjectionKindFilter::All,
            limit: Some(10),
        },
    );
    assert!(refresh.is_empty());
}

#[test]
fn projection_enqueue_rejects_unsafe_source_paths() {
    let mut req = request(ProjectionKindFilter::Wisdom, "../bob/raw/semantic/secret.md", None, "alice:unsafe");
    req.scope.source_paths = vec!["../bob/raw/semantic/secret.md".to_string()];
    let reads: Vec<Result<String, String>> = vec![Err(String::new())];
    let error = enqueue(&req, &reads).unwrap_err();
    assert!(error.message().contains("unsafe source path"));
    assert!(matches!(error, PhronesisError::Validation(_)));
}

#[test]
fn enqueue_reports_the_first_source_that_does_not_load() {
    let mut req = request(ProjectionKindFilter::Wisdom, "raw/semantic/a.md", None, "k");
    req.scope.source_paths = vec![
        "raw/semantic/a.md".to_string(),
        "raw/semantic/missing.md".to_string(),
        "../escape.md".to_string(),
    ];
    let reads: Vec<Result<String, String>> =
        vec![Ok("alpha".to_string()), Err("/agent/raw/semantic/missing.md (gone)".to_string()), Err(String::new())];
    assert_eq!(
        enqueue(&req, &reads).unwrap_err(),
        PhronesisError::NotFound(
            "source for agent alice not found: /agent/raw/semantic/missing.md (gone)".to_string()
        )
    );
    req.scope.source_paths[1] = "notes/x.md".to_string();
    assert_eq!(
        enqueue(&req, &reads).unwrap_err(),
        PhronesisError::Validation("unsupported source path root: notes/x.md".to_string())
    );
}

#[test]
fn enqueue_plans_with_the_current_time_and_date() {
    let req = request(ProjectionKindFilter::Wisdom, "raw/semantic/trace.md", None, "alice:wisdom:test");
    let reads: Vec<Result<String, String>> = vec![Ok("# Trace\n\nProjection runtime test".to_string())];
    let plan = enqueue(&req, &reads).unwrap();
    assert!(plan.result.accepted);
    let t = &plan.job.requested_at;
    assert!(t.contains('T') && t.ends_with("+00:00"));
    assert_eq!(plan.job.finished_at.as_ref(), Some(t));
    assert_eq!(plan.artifacts.len(), 1);
    assert_eq!(plan.artifacts[0].claims[0].text, "# Trace\n\nProjection runtime test");
}

#[test]
fn unsafe_and_unsupported_paths_are_told_apart() {
    assert_eq!(
        validate_source_path("/etc/passwd"),
        Err(PhronesisError::Validation("unsafe source path: /etc/passwd".to_string()))
    );
    assert_eq!(
        validate_source_path(""),
        Err(PhronesisError::Validation("unsafe source path: ".to_string()))
    );
    assert_eq!(
        validate_source_path("raw\\semantic\\x.md"),
        Err(PhronesisError::Validation("unsafe source path: raw\\semantic\\x.md".to_string()))
    );
    assert_eq!(
        validate_source_path("other/x.md"),
        Err(PhronesisError::Validation("unsupported source path root: other/x.md".to_string()))
    );
    assert_eq!(validate_source_path("docs/guide.md"), Ok(()));
    assert_eq!(validate_source_path("raw/temporal/daily/x.md"), Ok(()));
}

#[test]
fn all_kinds_are_planned_in_order_with_a_rollup() {
    let sources = vec![source_document(
        "raw/temporal/daily/2026-05-28.md".to_string(),
        "deployment follow-up todo".to_string(),
    )];
    let req = request(ProjectionKindFilter::All, "raw/temporal/daily/2026-05-28.md", None, "k");
    let plan = plan_enqueue(&req, &sources, NOW, TODAY);
    let kinds: Vec<ArtifactKind> = plan.artifacts.iter().map(|a| a.kind).collect();
    assert_eq!(
        kinds,
        vec![
            ArtifactKind::Wisdom,
            ArtifactKind::Decision,
            ArtifactKind::Report,
            ArtifactKind::TemporalRollup
        ]
    );
    assert_eq!(plan.artifacts[3].artifact_id, "alice:roll_daily_raw_temporal_daily_2026_05_28");
    match &plan.artifacts[3].body {
        ArtifactBody::TemporalRollup {
            granularity,
            period_start,
            open_loops,
            themes,
            ..
        } => {
            assert_eq!(granularity, "daily");
            assert_eq!(period_start, TODAY);
            assert_eq!(open_loops, &vec!["Review follow-up in raw/temporal/daily/2026-05-28.md".to_string()]);
            assert_eq!(themes, &vec!["2026-05-28".to_string()]);
        }
        _ => panic!("expected a temporal rollup"),
    }
}

#[test]
fn semantic_sources_skip_the_rollup() {
    let sources = vec![source_document("raw/semantic/a.md".to_string(), "text".to_string())];
    let req = request(ProjectionKindFilter::All, "raw/semantic/a.md", None, "k");
    let plan = plan_enqueue(&req, &sources, NOW, TODAY);
    assert_eq!(plan.artifacts.len(), 3);
    assert!(!should_emit_rollup(&None, &sources));
    assert!(should_emit_rollup(&Some("weekly".to_string()), &sources));
}

#[test]
fn evidence_graph_links_each_claim_to_its_source() {
    let sources = vec![
        source_document("raw/semantic/a.md".to_string(), "alpha".to_string()),
        source_document("docs/b.md".to_string(), "beta".to_string()),
    ];
    let req = request(ProjectionKindFilter::Decision, "raw/semantic/a.md", None, "k");
    let plan = plan_enqueue(&req, &sources, NOW, TODAY);
    let d = &plan.artifacts[0];
    assert_eq!(d.claims.len(), 2);
    assert_eq!(d.claims[1].claim_id, "claim_2");
    assert_eq!(d.claims[1].text, "beta");
    assert_eq!(d.evidence[1].evidence_id, "ev_2");
    assert_eq!(d.evidence[1].path, "docs/b.md");
    assert_eq!(d.links[0].claim_id, "claim_1");
    assert_eq!(d.links[0].evidence_id, "ev_1");
    match &d.body {
        ArtifactBody::Decision {
            title,
            summary,
            decision_type,
            ..
        } => {
            assert_eq!(title, "a");
            assert_eq!(summary, "alpha beta");
            assert_eq!(decision_type, "inferred");
        }
        _ => panic!("expected a decision"),
    }
}

#[test]
fn job_id_is_stable_per_agent_and_key() {
    let sources = vec![source_document("raw/semantic/a.md".to_string(), "text".to_string())];
    let a = plan_enqueue(&request(ProjectionKindFilter::Wisdom, "raw/semantic/a.md", None, "k1"), &sources, NOW, TODAY);
    let b = plan_enqueue(&request(ProjectionKindFilter::Wisdom, "raw/semantic/a.md", None, "k1"), &sources, "later", TODAY);
    let c = plan_enqueue(&request(ProjectionKindFilter::Wisdom, "raw/semantic/a.md", None, "k2"), &sources, NOW, TODAY);
    assert_eq!(a.result.job_id, b.result.job_id);
    assert_ne!(a.result.job_id, c.result.job_id);
    assert_eq!(a.result.job_id, stable_id("job", "alice:k1"));
}

#[test]
fn stable_ids_and_hashes_have_sixteen_hex_digits() {
    let id = stable_id("job", "alice:key");
    assert!(id.starts_with("job_"));
    assert_eq!(id.len(), 4 + 16);
    assert!(id[4..].chars().all(|c| c.is_ascii_hexdigit() && !c.is_ascii_uppercase()));
    assert_eq!(id, stable_id("job", "alice:key"));
    assert_ne!(stable_id("job", "a"), stable_id("job", "b"));
    assert_ne!(stable_id("job", "a"), format!("job_{}", "a"));
    let h = content_hash(ArtifactKind::Wisdom, "{\"a\":1}");
    assert_eq!(h.len(), 16);
    assert_eq!(h, content_hash(ArtifactKind::Wisdom, "{\"a\":1}"));
    assert_ne!(h, content_hash(ArtifactKind::Decision, "{\"a\":1}"));
}

#[test]
fn artifact_ids_name_their_kind() {
    let scope = ProjectionScope {
        agent: "alice".to_string(),
        source_paths: vec!["raw/semantic/trace.md".to_string()],
        granularity: None,
        period_start: None,
        period_end: None,
    };
    let none: Vec<SourceDocument> = vec![];
    assert_eq!(artifact_id_for(ArtifactKind::Wisdom, &scope, &none), "alice:cand_raw_semantic_trace");
    assert_eq!(artifact_id_for(ArtifactKind::Decision, &scope, &none), "alice:dec_raw_semantic_trace");
    assert_eq!(artifact_id_for(ArtifactKind::Report, &scope, &none), "alice:rep_raw_semantic_trace");
    assert_eq!(
        artifact_id_for(ArtifactKind::TemporalRollup, &scope, &none),
        "alice:roll_daily_raw_semantic_trace"
    );
    assert_eq!(sanitize_token("docs/a b.md.md"), "docs_a_b");
    assert_eq!(artifact_kind_from_id("alice:dec_x").unwrap(), ArtifactKind::Decision);
    assert_eq!(artifact_kind_from_id("alice:roll_x").unwrap(), ArtifactKind::TemporalRollup);
    assert_eq!(artifact_kind_from_id("rep_x").unwrap(), ArtifactKind::Report);
    assert_eq!(
        artifact_kind_from_id("alice:other"),
        Err(PhronesisError::NotFound("unknown artifact id: alice:other".to_string()))
    );
}

#[test]
fn kind_filters_map_to_artifact_kinds() {
    assert_eq!(kind_filter_to_artifact(ProjectionKindFilter::All), None);
    assert_eq!(kind_filter_to_artifact(ProjectionKindFilter::Report), Some(ArtifactKind::Report));
    assert_eq!(ProjectionKindFilter::from(ArtifactKind::Decision), ProjectionKindFilter::Decision);
}

#[test]
fn query_terms_are_trimmed_and_lowercased() {
    assert_eq!(normalized_terms("  Deployment, Follow-up!! "), vec!["deployment", "follow-up"]);
    assert!(normalized_terms(" ?? !! ").is_empty());
    assert!(str_eq("abc", "abc"));
    assert!(!str_eq("abc", "abd"));
}

#[test]
fn jobs_are_listed_newest_first_and_paged() {
    let jobs = vec![
        job("alice", "2026-01-01", ProjectionKindFilter::Wisdom, ProjectionJobStatus::Succeeded),
        job("bob", "2026-01-05", ProjectionKindFilter::Wisdom, ProjectionJobStatus::Succeeded),
        job("alice", "2026-01-03", ProjectionKindFilter::Report, ProjectionJobStatus::Succeeded),
        job("alice", "2026-01-02", ProjectionKindFilter::Wisdom, ProjectionJobStatus::Failed),
    ];
    let all = list_jobs(jobs.clone(), "alice", None, None, 10, 0);
    assert_eq!(all.total_count, 3);
    let times: Vec<&str> = all.jobs.iter().map(|j| j.requested_at.as_str()).collect();
    assert_eq!(times, vec!["2026-01-03", "2026-01-02", "2026-01-01"]);
    let page = list_jobs(jobs.clone(), "alice", None, None, 1, 1);
    assert_eq!(page.total_count, 3);
    assert_eq!(page.jobs.len(), 1);
    assert_eq!(page.jobs[0].requested_at, "2026-01-02");
    let wisdom = list_jobs(jobs.clone(), "alice", Some(ProjectionKindFilter::Wisdom), None, 10, 0);
    assert_eq!(wisdom.total_count, 2);
    let failed = list_jobs(jobs, "alice", None, Some(ProjectionJobStatus::Failed), 10, 0);
    assert_eq!(failed.total_count, 1);
    assert_eq!(failed.jobs[0].requested_at, "2026-01-02");
}

#[test]
fn stale_artifacts_are_re_enqueued_with_their_sources() {
    let sources = vec![source_document(
        "raw/temporal/daily/2026-05-28.md".to_string(),
        "deployment follow-up todo".to_string(),
    )];
    let req = request(
        ProjectionKindFilter::TemporalRollup,
        "raw/temporal/daily/2026-05-28.md",
        Some("daily"),
        "alice:roll",
    );
    let plan = plan_enqueue(&req, &sources, NOW, TODAY);
    let mut records: Vec<ArtifactRecord> = plan.artifacts.iter().map(record_of).collect();
    records[0].status = ArtifactStatus::Stale;
    let out = refresh_stale(
        &records,
        &ProjectionRefreshStaleRequest {
            agent: "alice".to_string(),
            kind: ProjectionKindFilter::All,
            limit: None,
        },
    );
    assert_eq!(out.len(), 1);
    assert_eq!(out[0].kind, ProjectionKindFilter::TemporalRollup);
    assert_eq!(out[0].scope.source_paths, vec!["raw/temporal/daily/2026-05-28.md".to_string()]);
    assert_eq!(out[0].scope.granularity, Some("daily".to_string()));
    assert_eq!(out[0].scope.period_start, Some(TODAY.to_string()));
    assert_eq!(out[0].idempotency_key, "alice:roll");
    assert_eq!(out[0].source_watermark, watermark());
}

#[test]
fn search_needs_every_term_and_respects_the_limit() {
    let mut records = Vec::new();
    for (i, text) in ["alpha beta", "alpha", "beta alpha gamma"].iter().enumerate() {
        let sources = vec![source_document(format!("raw/semantic/n{}.md", i), text.to_string())];
        let req = request(ProjectionKindFilter::Wisdom, &format!("raw/semantic/n{}.md", i), None, "k");
        let plan = plan_enqueue(&req, &sources, &format!("2026-01-0{}", i + 1), TODAY);
        records.push(record_of(&plan.artifacts[0]));
    }
    let search = |q: &str, limit: Option<usize>| {
        search_artifacts(
            &records,
            &ProjectionSearchArtifactsRequest {
                agent: "alice".to_string(),
                q: q.to_string(),
                kind: None,
                limit,
            },
        )
    };
    let both = search("ALPHA beta", None);
    assert_eq!(both.total_count, 2);
    assert_eq!(both.positions, vec![2, 0]);
    let one = search("alpha", Some(1));
    assert_eq!(one.total_count, 3);
    assert_eq!(one.positions, vec![2]);
    let zero = search("alpha", Some(0));
    assert_eq!(zero.positions.len(), 1);
    assert_eq!(search("delta", None).total_count, 0);
}

#[test]
fn projection_files_are_laid_out_by_kind() {
    assert_eq!(projection_root(), "projections");
    assert_eq!(artifacts_dir(ArtifactKind::TemporalRollup), "projections/artifacts/temporal_rollup");
    assert_eq!(jobs_dir(), "projections/jobs");
    assert_eq!(artifact_path(ArtifactKind::Wisdom, "alice:cand_x"), "projections/artifacts/wisdom/alice:cand_x.json");
    assert_eq!(job_path("job_1"), "projections/jobs/job_1.json");
    assert_eq!(
        artifact_location("alice:dec_y"),
        Ok("projections/artifacts/decision/alice:dec_y.json".to_string())
    );
    assert_eq!(
        artifact_location("alice:zzz"),
        Err(PhronesisError::NotFound("unknown artifact id: alice:zzz".to_string()))
    );
}

#[test]
fn enqueued_artifacts_are_found_where_they_are_written() {
    let sources = vec![source_document(
        "raw/temporal/daily/2026-05-28.md".to_string(),
        "deployment follow-up todo".to_string(),
    )];
    let req = request(ProjectionKindFilter::All, "raw/temporal/daily/2026-05-28.md", Some("daily"), "k");
    let plan = plan_enqueue(&req, &sources, NOW, TODAY);
    for (d, id) in plan.artifacts.iter().zip(plan.job.produced_artifact_ids.iter()) {
        assert_eq!(&d.artifact_id, id);
        assert_eq!(artifact_location(id), Ok(artifact_path(d.kind, &d.artifact_id)));
    }
}

#[test]
fn lowercasing_reaches_unicode_letters() {
    assert_eq!(normalized_terms("DePloy XÄY ÄÖ"), vec!["deploy", "xäy"]);
}

#[test]
fn pages_of_a_listing_tile_it() {
    let jobs: Vec<ProjectionJob> = ["2026-01-01", "2026-01-04", "2026-01-02", "2026-01-03", "2026-01-05"]
        .iter()
        .map(|t| job("alice", t, ProjectionKindFilter::All, ProjectionJobStatus::Succeeded))
        .collect();
    let whole = list_jobs(jobs.clone(), "alice", None, None, 3, 1);
    let first = list_jobs(jobs.clone(), "alice", None, None, 1, 1);
    let second = list_jobs(jobs.clone(), "alice", None, None, 2, 2);
    let mut joined = first.jobs.clone();
    joined.extend(second.jobs.clone());
    assert_eq!(joined, whole.jobs);
    let past_end = list_jobs(jobs, "alice", None, None, 10, 7);
    assert!(past_end.jobs.is_empty());
    assert_eq!(past_end.total_count, 5);
}

#[test]
fn equal_times_keep_their_read_order() {
    let mut a = job("alice", "2026-01-01", ProjectionKindFilter::Wisdom, ProjectionJobStatus::Succeeded);
    a.job_id = "first".to_string();
    let mut b = job("alice", "2026-01-01", ProjectionKindFilter::Wisdom, ProjectionJobStatus::Succeeded);
    b.job_id = "second".to_string();
    let c = job("alice", "2026-01-02", ProjectionKindFilter::Wisdom, ProjectionJobStatus::Succeeded);
    let listed = list_jobs(vec![a, b, c], "alice", None, None, 10, 0);
    let ids: Vec<&str> = listed.jobs.iter().map(|j| j.job_id.as_str()).collect();
    assert_eq!(ids, vec!["job_2026-01-02", "first", "second"]);
}

#[test]
fn refreshing_a_stale_artifact_rewrites_the_same_artifact() {
    let sources = vec![source_document("docs/decision_log.md".to_string(), "accepted plan".to_string())];
    let req = request(ProjectionKindFilter::Decision, "docs/decision_log.md", None, "alice:dec");
    let plan = plan_enqueue(&req, &sources, NOW, TODAY);
    let mut records: Vec<ArtifactRecord> = plan.artifacts.iter().map(record_of).collect();
    records[0].status = ArtifactStatus::Stale;
    let requests = refresh_stale(
        &records,
        &ProjectionRefreshStaleRequest { agent: "alice".to_string(), kind: ProjectionKindFilter::All, limit: None },
    );
    assert_eq!(requests.len(), 1);
    let reads: Vec<Result<String, String>> = vec![Ok("accepted plan, revised".to_string())];
    let again = enqueue(&requests[0], &reads).unwrap();
    assert_eq!(again.artifacts.len(), 1);
    assert_eq!(again.artifacts[0].artifact_id, plan.artifacts[0].artifact_id);
    assert_eq!(again.artifacts[0].kind, ArtifactKind::Decision);
    assert_eq!(again.artifacts[0].status, ArtifactStatus::Active);
    assert_eq!(again.artifacts[0].idempotency_key, "alice:dec");
    assert_eq!(again.result.job_id, plan.result.job_id);
}

#[test]
fn job_pages_tile_across_reads_in_different_orders() {
    let times = ["2026-01-01", "2026-01-04", "2026-01-02", "2026-01-03", "2026-01-05"];
    let jobs: Vec<ProjectionJob> = times
        .iter()
        .map(|t| job("alice", t, ProjectionKindFilter::All, ProjectionJobStatus::Succeeded))
        .collect();
    let mut reversed = jobs.clone();
    reversed.reverse();
    let mut rotated = jobs.clone();
    rotated.rotate_left(2);
    let whole = list_jobs(jobs, "alice", None, None, 3, 1);
    let first = list_jobs(reversed, "alice", None, None, 1, 1);
    let second = list_jobs(rotated, "alice", None, None, 2, 2);
    let mut joined = first.jobs.clone();
    joined.extend(second.jobs.clone());
    assert_eq!(joined, whole.jobs);
    assert_eq!(first.total_count, whole.total_count);
    assert_eq!(second.total_count, whole.total_count);
}

#[test]
fn a_rollup_without_a_period_covers_today() {
    let mut req = request(ProjectionKindFilter::TemporalRollup, "raw/temporal/daily/2026-05-28.md", None, "k");
    req.scope.period_start = None;
    req.scope.period_end = None;
    let reads: Vec<Result<String, String>> = vec![Ok("notes".to_string())];
    let plan = enqueue(&req, &reads).unwrap();
    match &plan.artifacts[0].body {
        ArtifactBody::TemporalRollup { period_start, period_end, .. } => {
            assert_eq!(period_start.len(), 10);
            assert_eq!(&period_start[4..5], "-");
            assert_eq!(&period_start[7..8], "-");
            assert!(period_start.chars().all(|c| c.is_ascii_digit() || c == '-'));
            assert_eq!(period_start, period_end);
        }
        _ => panic!("expected a temporal rollup"),
    }
}
