//! The MCP tool requests and the decisions the tools make about them: defaults, the
//! parsing of kind and status names, and how errors are reported.
use vstd::prelude::*;

use crate::error::PhronesisError;
use crate::fs::projection::{artifact_of_filter, filter_of_kind, str_eq};
use crate::text::concat;
use crate::types::{
    kind_name, ArtifactKind, ArtifactStatus, ProjectionEnqueueRequestPayload, ProjectionJobStatus,
    ProjectionKindFilter, ProjectionScope, SourceWatermark,
};

verus! {

/// Semantic folder search.
#[derive(Debug, Clone, PartialEq, Eq)]
pub struct EmbedSearchRequest {
    pub query: String,
    pub top_k: Option<usize>,
}

/// Filename and content search.
#[derive(Debug, Clone, PartialEq, Eq)]
pub struct GrepSearchRequest {
    pub folder: String,
    pub pattern: String,
    pub max_results: Option<usize>,
}

/// Read of an action file.
#[derive(Debug, Clone, PartialEq, Eq)]
pub struct ReadActionRequest {
    pub path: String,
}

/// Suggestion of folders for a new action.
#[derive(Debug, Clone, PartialEq, Eq)]
pub struct SuggestLocationRequest {
    pub description: String,
    pub top_k: Option<usize>,
}

/// Creation of a folder.
#[derive(Debug, Clone, PartialEq, Eq)]
pub struct CreateFolderRequest {
    pub path: String,
    pub description: String,
}

/// Move of a file or folder.
#[derive(Debug, Clone, PartialEq, Eq)]
pub struct MoveActionRequest {
    pub old_path: String,
    pub new_path: String,
}

/// Rename of an action file.
#[derive(Debug, Clone, PartialEq, Eq)]
pub struct RenameActionRequest {
    pub path: String,
    pub new_name: String,
}

/// Creation of a habit shortcut.
#[derive(Debug, Clone, PartialEq, Eq)]
pub struct CreateHabitRequest {
    pub source: String,
    pub shortcut: String,
}

/// Query of the warning log.
#[derive(Debug, Clone, PartialEq, Eq)]
pub struct GetWarningsRequest {
    pub since: Option<String>,
}

/// The scope of a projection, as the tool receives it.
#[derive(Debug, Clone, PartialEq, Eq)]
pub struct ProjectionToolScope {
    pub agent: String,
    pub source_paths: Vec<String>,
    pub granularity: Option<String>,
    pub period_start: Option<String>,
    pub period_end: Option<String>,
}

/// The watermark of a projection, as the tool receives it.
#[derive(Debug, Clone, PartialEq, Eq)]
pub struct ProjectionToolWatermark {
    pub content_hash: String,
    pub latest_mtime: String,
    pub source_count: usize,
}

/// An enqueue request, as the tool receives it (the kind by name).
#[derive(Debug, Clone, PartialEq, Eq)]
pub struct ProjectionEnqueueToolRequest {
    pub kind: String,
    pub scope: ProjectionToolScope,
    pub idempotency_key: String,
    pub source_watermark: ProjectionToolWatermark,
}

/// Read of a job.
#[derive(Debug, Clone, PartialEq, Eq)]
pub struct ProjectionGetJobToolRequest {
    pub job_id: String,
}

/// Listing of jobs.
#[derive(Debug, Clone, PartialEq, Eq)]
pub struct ProjectionListJobsToolRequest {
    pub agent: String,
    pub kind: Option<String>,
    pub status: Option<String>,
    pub limit: Option<usize>,
    pub offset: Option<usize>,
}

/// Read of an artifact.
#[derive(Debug, Clone, PartialEq, Eq)]
pub struct ProjectionGetArtifactToolRequest {
    pub artifact_id: String,
}

/// Listing of artifacts.
#[derive(Debug, Clone, PartialEq, Eq)]
pub struct ProjectionListArtifactsToolRequest {
    pub agent: String,
    pub kind: Option<String>,
    pub status: Option<String>,
    pub granularity: Option<String>,
    pub limit: Option<usize>,
    pub offset: Option<usize>,
}

/// Search of artifacts.
#[derive(Debug, Clone, PartialEq, Eq)]
pub struct ProjectionSearchArtifactsToolRequest {
    pub agent: String,
    pub q: String,
    pub kind: Option<String>,
    pub limit: Option<usize>,
}

/// Refresh of stale artifacts.
#[derive(Debug, Clone, PartialEq, Eq)]
pub struct ProjectionRefreshStaleToolRequest {
    pub agent: String,
    pub kind: String,
    pub limit: Option<usize>,
}

/// The number of results a search tool returns when none is asked for.
pub fn top_k_or_default(top_k: Option<usize>) -> (r: usize)
    ensures
        r == match top_k {
            Some(k) => k,
            None => 5,
        },
{
    match top_k {
        Some(k) => k,
        None => 5,
    }
}

/// The page size of a listing tool: the requested one (50 by default), at least one.
pub fn page_limit(limit: Option<usize>) -> (r: usize)
    ensures
        r == match limit {
            Some(l) => if l >= 1 { l } else { 1 },
            None => 50,
        },
{
    match limit {
        Some(l) => if l >= 1 {
            l
        } else {
            1
        },
        None => 50,
    }
}

/// The offset of a listing tool: the requested one, 0 by default.
pub fn page_offset(offset: Option<usize>) -> (r: usize)
    ensures
        r == match offset {
            Some(o) => o,
            None => 0,
        },
{
    match offset {
        Some(o) => o,
        None => 0,
    }
}

/// The projection filter a name denotes.
pub open spec fn kind_filter_named(v: Seq<char>) -> Option<ProjectionKindFilter> {
    if v == "wisdom"@ {
        Some(ProjectionKindFilter::Wisdom)
    } else if v == "decision"@ {
        Some(ProjectionKindFilter::Decision)
    } else if v == "temporal_rollup"@ {
        Some(ProjectionKindFilter::TemporalRollup)
    } else if v == "report"@ {
        Some(ProjectionKindFilter::Report)
    } else if v == "all"@ {
        Some(ProjectionKindFilter::All)
    } else {
        None
    }
}

/// The artifact kind a name denotes.
pub open spec fn artifact_kind_named(v: Seq<char>) -> Option<ArtifactKind> {
    if v == "wisdom"@ {
        Some(ArtifactKind::Wisdom)
    } else if v == "decision"@ {
        Some(ArtifactKind::Decision)
    } else if v == "temporal_rollup"@ {
        Some(ArtifactKind::TemporalRollup)
    } else if v == "report"@ {
        Some(ArtifactKind::Report)
    } else {
        None
    }
}

/// A kind filter selects the artifacts of the kind it names: the filter named `decision`
/// selects decisions, and so on for each kind; the filter of a kind selects that kind, every
/// filter but `all` is the filter of the kind it selects, and `all` selects no single kind.
pub proof fn lemma_kind_filter_selects_named_kind()
    ensures
        forall|v: Seq<char>|
            #![trigger kind_filter_named(v)]
            kind_filter_named(v) is Some && kind_filter_named(v)->0 != ProjectionKindFilter::All
                ==> artifact_of_filter(kind_filter_named(v)->0) == artifact_kind_named(v)
                && artifact_kind_named(v) is Some,
        forall|k: ArtifactKind| #[trigger] artifact_of_filter(filter_of_kind(k)) == Some(k),
        forall|k: ArtifactKind| #[trigger] kind_filter_named(kind_name(k)) == Some(filter_of_kind(k)),
        forall|f: ProjectionKindFilter|
            #![trigger artifact_of_filter(f)]
            f != ProjectionKindFilter::All ==> artifact_of_filter(f) is Some && filter_of_kind(
                artifact_of_filter(f)->0,
            ) == f,
        artifact_of_filter(ProjectionKindFilter::All) is None,
{
    reveal_strlit("wisdom");
    reveal_strlit("decision");
    reveal_strlit("temporal_rollup");
    reveal_strlit("report");
    reveal_strlit("all");
    assert forall|k: ArtifactKind| #[trigger] kind_filter_named(kind_name(k)) == Some(filter_of_kind(k)) by {
        assert("wisdom"@[0] == 'w' && "decision"@[0] == 'd' && "temporal_rollup"@[0] == 't' && "report"@[0] == 'r');
        assert("wisdom"@ != "decision"@ && "wisdom"@ != "temporal_rollup"@ && "wisdom"@ != "report"@);
        assert("decision"@ != "temporal_rollup"@ && "decision"@ != "report"@);
        assert("temporal_rollup"@ != "report"@);
    }
}

/// The artifact status a name denotes.
pub open spec fn artifact_status_named(v: Seq<char>) -> Option<ArtifactStatus> {
    if v == "active"@ {
        Some(ArtifactStatus::Active)
    } else if v == "superseded"@ {
        Some(ArtifactStatus::Superseded)
    } else if v == "stale"@ {
        Some(ArtifactStatus::Stale)
    } else if v == "rejected"@ {
        Some(ArtifactStatus::Rejected)
    } else {
        None
    }
}

/// The job status a name denotes.
pub open spec fn job_status_named(v: Seq<char>) -> Option<ProjectionJobStatus> {
    if v == "queued"@ {
        Some(ProjectionJobStatus::Queued)
    } else if v == "running"@ {
        Some(ProjectionJobStatus::Running)
    } else if v == "succeeded"@ {
        Some(ProjectionJobStatus::Succeeded)
    } else if v == "failed"@ {
        Some(ProjectionJobStatus::Failed)
    } else if v == "retrying"@ {
        Some(ProjectionJobStatus::Retrying)
    } else if v == "cancelled"@ {
        Some(ProjectionJobStatus::Cancelled)
    } else if v == "stale"@ {
        Some(ProjectionJobStatus::Stale)
    } else {
        None
    }
}

/// `e` is the validation error with message `prefix` followed by `value`.
pub open spec fn validation_error(e: PhronesisError, prefix: Seq<char>, value: Seq<char>) -> bool {
    e == PhronesisError::Validation(e->Validation_0) && e->Validation_0@ == prefix + value
}

/// The projection filter named `value`; a validation error for any other name.
pub fn parse_projection_kind_filter(value: &str) -> (r: Result<ProjectionKindFilter, PhronesisError>)
    ensures
        r is Ok <==> kind_filter_named(value@) is Some,
        r matches Ok(k) ==> kind_filter_named(value@) == Some(k),
        r matches Err(e) ==> validation_error(e, "invalid projection kind: "@, value@),
{
    if str_eq(value, "wisdom") {
        Ok(ProjectionKindFilter::Wisdom)
    } else if str_eq(value, "decision") {
        Ok(ProjectionKindFilter::Decision)
    } else if str_eq(value, "temporal_rollup") {
        Ok(ProjectionKindFilter::TemporalRollup)
    } else if str_eq(value, "report") {
        Ok(ProjectionKindFilter::Report)
    } else if str_eq(value, "all") {
        Ok(ProjectionKindFilter::All)
    } else {
        Err(PhronesisError::Validation(concat("invalid projection kind: ", value)))
    }
}

/// The view of an optional name.
pub open spec fn opt_name(o: Option<&str>) -> Option<Seq<char>> {
    match o {
        Some(s) => Some(s@),
        None => None,
    }
}

/// The optional projection filter named by `value`.
pub fn parse_projection_kind_filter_opt(value: Option<&str>) -> (r: Result<Option<ProjectionKindFilter>, PhronesisError>)
    ensures
        value is None ==> r == Ok::<Option<ProjectionKindFilter>, PhronesisError>(None),
        value matches Some(v) ==> (r is Ok <==> kind_filter_named(v@) is Some),
        value matches Some(v) ==> (r matches Ok(k) ==> k == kind_filter_named(v@)),
        value matches Some(v) ==> (r matches Err(e) ==> validation_error(e, "invalid projection kind: "@, v@)),
{
    match value {
        None => Ok(None),
        Some(v) => match parse_projection_kind_filter(v) {
            Ok(k) => Ok(Some(k)),
            Err(e) => Err(e),
        },
    }
}

/// The optional artifact kind named by `value`.
pub fn parse_artifact_kind_opt(value: Option<&str>) -> (r: Result<Option<ArtifactKind>, PhronesisError>)
    ensures
        value is None ==> r == Ok::<Option<ArtifactKind>, PhronesisError>(None),
        value matches Some(v) ==> (r is Ok <==> artifact_kind_named(v@) is Some),
        value matches Some(v) ==> (r matches Ok(k) ==> k == artifact_kind_named(v@)),
        value matches Some(v) ==> (r matches Err(e) ==> validation_error(e, "invalid artifact kind: "@, v@)),
{
    match value {
        None => Ok(None),
        Some(v) => if str_eq(v, "wisdom") {
            Ok(Some(ArtifactKind::Wisdom))
        } else if str_eq(v, "decision") {
            Ok(Some(ArtifactKind::Decision))
        } else if str_eq(v, "temporal_rollup") {
            Ok(Some(ArtifactKind::TemporalRollup))
        } else if str_eq(v, "report") {
            Ok(Some(ArtifactKind::Report))
        } else {
            Err(PhronesisError::Validation(concat("invalid artifact kind: ", v)))
        },
    }
}

/// The optional artifact status named by `value`.
pub fn parse_artifact_status_opt(value: Option<&str>) -> (r: Result<Option<ArtifactStatus>, PhronesisError>)
    ensures
        value is None ==> r == Ok::<Option<ArtifactStatus>, PhronesisError>(None),
        value matches Some(v) ==> (r is Ok <==> artifact_status_named(v@) is Some),
        value matches Some(v) ==> (r matches Ok(k) ==> k == artifact_status_named(v@)),
        value matches Some(v) ==> (r matches Err(e) ==> validation_error(e, "invalid artifact status: "@, v@)),
{
    match value {
        None => Ok(None),
        Some(v) => if str_eq(v, "active") {
            Ok(Some(ArtifactStatus::Active))
        } else if str_eq(v, "superseded") {
            Ok(Some(ArtifactStatus::Superseded))
        } else if str_eq(v, "stale") {
            Ok(Some(ArtifactStatus::Stale))
        } else if str_eq(v, "rejected") {
            Ok(Some(ArtifactStatus::Rejected))
        } else {
            Err(PhronesisError::Validation(concat("invalid artifact status: ", v)))
        },
    }
}

/// The optional job status named by `value`.
pub fn parse_projection_job_status_opt(value: Option<&str>) -> (r: Result<Option<ProjectionJobStatus>, PhronesisError>)
    ensures
        value is None ==> r == Ok::<Option<ProjectionJobStatus>, PhronesisError>(None),
        value matches Some(v) ==> (r is Ok <==> job_status_named(v@) is Some),
        value matches Some(v) ==> (r matches Ok(k) ==> k == job_status_named(v@)),
        value matches Some(v) ==> (r matches Err(e) ==> validation_error(e, "invalid projection job status: "@, v@)),
{
    match value {
        None => Ok(None),
        Some(v) => if str_eq(v, "queued") {
            Ok(Some(ProjectionJobStatus::Queued))
        } else if str_eq(v, "running") {
            Ok(Some(ProjectionJobStatus::Running))
        } else if str_eq(v, "succeeded") {
            Ok(Some(ProjectionJobStatus::Succeeded))
        } else if str_eq(v, "failed") {
            Ok(Some(ProjectionJobStatus::Failed))
        } else if str_eq(v, "retrying") {
            Ok(Some(ProjectionJobStatus::Retrying))
        } else if str_eq(v, "cancelled") {
            Ok(Some(ProjectionJobStatus::Cancelled))
        } else if str_eq(v, "stale") {
            Ok(Some(ProjectionJobStatus::Stale))
        } else {
            Err(PhronesisError::Validation(concat("invalid projection job status: ", v)))
        },
    }
}

/// The enqueue payload an enqueue tool request stands for; a validation error when its
/// kind names no filter.
pub fn map_enqueue_request(req: ProjectionEnqueueToolRequest) -> (r: Result<ProjectionEnqueueRequestPayload, PhronesisError>)
    ensures
        r is Ok <==> kind_filter_named(req.kind@) is Some,
        r matches Err(e) ==> validation_error(e, "invalid projection kind: "@, req.kind@),
        r matches Ok(p) ==> {
            &&& Some(p.kind) == kind_filter_named(req.kind@)
            &&& p.scope.agent == req.scope.agent
            &&& p.scope.source_paths == req.scope.source_paths
            &&& p.scope.granularity == req.scope.granularity
            &&& p.scope.period_start == req.scope.period_start
            &&& p.scope.period_end == req.scope.period_end
            &&& p.idempotency_key == req.idempotency_key
            &&& p.source_watermark.content_hash == req.source_watermark.content_hash
            &&& p.source_watermark.latest_mtime == req.source_watermark.latest_mtime
            &&& p.source_watermark.source_count == req.source_watermark.source_count
        },
{
    let kind = match parse_projection_kind_filter(req.kind.as_str()) {
        Ok(k) => k,
        Err(e) => return Err(e),
    };
    Ok(
        ProjectionEnqueueRequestPayload {
            kind,
            scope: ProjectionScope {
                agent: req.scope.agent,
                source_paths: req.scope.source_paths,
                granularity: req.scope.granularity,
                period_start: req.scope.period_start,
                period_end: req.scope.period_end,
            },
            idempotency_key: req.idempotency_key,
            source_watermark: SourceWatermark {
                content_hash: req.source_watermark.content_hash,
                latest_mtime: req.source_watermark.latest_mtime,
                source_count: req.source_watermark.source_count,
            },
        },
    )
}

/// The code a projection tool reports for an error.
pub open spec fn error_code(e: PhronesisError) -> Seq<char> {
    match e {
        PhronesisError::Validation(_) => "invalid_request"@,
        PhronesisError::NotFound(_) => "not_found"@,
        PhronesisError::Embedding(_) => "unavailable"@,
        PhronesisError::Io(_) => "internal"@,
        PhronesisError::Json(_) => "internal"@,
        PhronesisError::Config(_) => "internal"@,
    }
}

/// How a projection tool reports an error: its code, and whether a retry may succeed
/// (embedding and I/O failures).
pub fn projection_error_code(e: &PhronesisError) -> (r: (&'static str, bool))
    ensures
        r.0@ == error_code(*e),
        r.1 == (e is Embedding || e is Io),
{
    match e {
        PhronesisError::Validation(_) => ("invalid_request", false),
        PhronesisError::NotFound(_) => ("not_found", false),
        PhronesisError::Embedding(_) => ("unavailable", true),
        PhronesisError::Io(_) => ("internal", true),
        PhronesisError::Json(_) => ("internal", false),
        PhronesisError::Config(_) => ("internal", false),
    }
}

} // verus!
