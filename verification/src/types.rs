//! Shared domain types.
use vstd::prelude::*;

verus! {

/// A file found by grep, with the matches in its name and lines.
#[derive(Debug, Clone, PartialEq, Eq)]
pub struct ActionFile {
    pub path: String,
    pub matched_lines: Vec<MatchedLine>,
}

/// One grep match: the filename (line 0) or a line of content (1-based).
#[derive(Debug, Clone, PartialEq, Eq)]
pub struct MatchedLine {
    pub line_number: usize,
    pub content: String,
    pub is_filename_match: bool,
}

/// The answer to a write of an action entry.
#[derive(Debug, Clone, PartialEq, Eq)]
pub struct WriteResult {
    pub path: String,
    pub warning: Option<Warning>,
}

/// The answer to a move.
#[derive(Debug, Clone, PartialEq, Eq)]
pub struct MoveResult {
    pub old_path: String,
    pub new_path: String,
}

/// The answer to a rename.
#[derive(Debug, Clone, PartialEq, Eq)]
pub struct RenameResult {
    pub old_name: String,
    pub new_name: String,
    pub warning: Option<Warning>,
}

/// The answer to the creation of a habit shortcut.
#[derive(Debug, Clone, PartialEq, Eq)]
pub struct HabitResult {
    pub source: String,
    pub shortcut: String,
}

/// A naming-convention violation, recorded for later reflection.
#[derive(Debug, Clone, PartialEq, Eq)]
pub struct Warning {
    pub ts: String,
    pub file_path: String,
    pub message: String,
    pub rule_violated: String,
}

/// One line of a folder's `.meta.jsonl`: the folder's description.
#[derive(Debug, Clone, PartialEq, Eq)]
pub struct MetaEntry {
    pub description: String,
    pub created: Option<String>,
    pub updated: Option<String>,
}

/// One recorded experience of an action file.
#[derive(Debug, Clone, PartialEq, Eq)]
pub struct ActionEntry {
    pub ts: String,
    pub situation: String,
    pub reasoning: String,
    pub action: String,
    pub outcome: String,
    pub tags: Vec<String>,
    pub source_file: Option<String>,
}

/// The answer to the creation of a folder.
#[derive(Debug, Clone, PartialEq, Eq)]
pub struct FolderResult {
    pub path: String,
    pub description: String,
    pub is_new: bool,
}

/// Which projection artifacts a request concerns.
#[derive(Debug, Clone, Copy, PartialEq, Eq, Structural)]
pub enum ProjectionKindFilter {
    Wisdom,
    Decision,
    TemporalRollup,
    Report,
    All,
}

/// The kind of a projection artifact.
#[derive(Debug, Clone, Copy, PartialEq, Eq, Structural)]
pub enum ArtifactKind {
    Wisdom,
    Decision,
    TemporalRollup,
    Report,
}

/// The name of an artifact kind, as stored and as used for its directory.
pub open spec fn kind_name(k: ArtifactKind) -> Seq<char> {
    match k {
        ArtifactKind::Wisdom => "wisdom"@,
        ArtifactKind::Decision => "decision"@,
        ArtifactKind::TemporalRollup => "temporal_rollup"@,
        ArtifactKind::Report => "report"@,
    }
}

impl ArtifactKind {
    /// The name of the kind.
    pub fn as_str(&self) -> (r: &'static str)
        ensures
            r@ == kind_name(*self),
    {
        match self {
            ArtifactKind::Wisdom => "wisdom",
            ArtifactKind::Decision => "decision",
            ArtifactKind::TemporalRollup => "temporal_rollup",
            ArtifactKind::Report => "report",
        }
    }
}

/// The lifecycle state of an artifact.
#[derive(Debug, Clone, Copy, PartialEq, Eq, Structural)]
pub enum ArtifactStatus {
    Active,
    Superseded,
    Stale,
    Rejected,
}

/// Whether an artifact reflects its sources.
#[derive(Debug, Clone, Copy, PartialEq, Eq, Structural)]
pub enum Freshness {
    Fresh,
    Stale,
    Unknown,
}

/// The state of a projection job.
#[derive(Debug, Clone, Copy, PartialEq, Eq, Structural)]
pub enum ProjectionJobStatus {
    Queued,
    Running,
    Succeeded,
    Failed,
    Retrying,
    Cancelled,
    Stale,
}

/// Confidence in a claim.
#[derive(Debug, Clone, Copy, PartialEq, Eq, Structural)]
pub enum Confidence {
    Low,
    Medium,
    High,
}

/// How a piece of evidence bears on a claim.
#[derive(Debug, Clone, Copy, PartialEq, Eq, Structural)]
pub enum EvidenceRelation {
    Supports,
    Contradicts,
    Context,
}

/// Where a piece of evidence comes from.
#[derive(Debug, Clone, Copy, PartialEq, Eq, Structural)]
pub enum SourceKind {
    Semantic,
    Temporal,
    Docs,
    Decision,
    External,
}

/// Who may see a piece of evidence.
#[derive(Debug, Clone, Copy, PartialEq, Eq, Structural)]
pub enum Sensitivity {
    Public,
    Operator,
    Private,
}

/// The state of the sources a projection was made from.
#[derive(Debug, Clone, PartialEq, Eq)]
pub struct SourceWatermark {
    pub content_hash: String,
    pub latest_mtime: String,
    pub source_count: usize,
}

/// The sources a projection covers.
#[derive(Debug, Clone, PartialEq, Eq)]
pub struct ProjectionScope {
    pub agent: String,
    pub source_paths: Vec<String>,
    pub granularity: Option<String>,
    pub period_start: Option<String>,
    pub period_end: Option<String>,
}

/// A request to project artifacts from sources.
#[derive(Debug, Clone, PartialEq, Eq)]
pub struct ProjectionEnqueueRequestPayload {
    pub kind: ProjectionKindFilter,
    pub scope: ProjectionScope,
    pub idempotency_key: String,
    pub source_watermark: SourceWatermark,
}

/// The answer to an enqueue request.
#[derive(Debug, Clone, PartialEq, Eq)]
pub struct ProjectionEnqueueResult {
    pub job_id: String,
    pub status: ProjectionJobStatus,
    pub accepted: bool,
    pub idempotency_key: String,
    pub existing_job_id: Option<String>,
}

/// A claim made by an artifact.
#[derive(Debug, Clone, PartialEq, Eq)]
pub struct Claim {
    pub claim_id: String,
    pub text: String,
    pub scope: String,
    pub confidence: Confidence,
}

/// A range of lines of a source.
#[derive(Debug, Clone, PartialEq, Eq)]
pub struct EvidenceSpan {
    pub start_line: usize,
    pub end_line: usize,
}

/// A piece of evidence behind claims.
#[derive(Debug, Clone, PartialEq, Eq)]
pub struct EvidenceRef {
    pub evidence_id: String,
    pub source_kind: SourceKind,
    pub agent: String,
    pub path: String,
    pub record_id: Option<String>,
    pub span: Option<EvidenceSpan>,
    pub excerpt: String,
    pub timestamp: Option<String>,
    pub sensitivity: Sensitivity,
}

/// A failed attempt of a job.
#[derive(Debug, Clone, PartialEq, Eq)]
pub struct RetryEvent {
    pub at: String,
    pub error_code: String,
    pub message: String,
}

/// A projection job and what it produced.
#[derive(Debug, Clone, PartialEq, Eq)]
pub struct ProjectionJob {
    pub job_id: String,
    pub agent: String,
    pub kind: ProjectionKindFilter,
    pub status: ProjectionJobStatus,
    pub requested_at: String,
    pub started_at: Option<String>,
    pub finished_at: Option<String>,
    pub retry_count: usize,
    pub retry_history: Vec<RetryEvent>,
    pub last_error: Option<String>,
    pub watermark_before: SourceWatermark,
    pub watermark_after: Option<SourceWatermark>,
    pub stale: bool,
    pub stale_reason: Option<String>,
    pub idempotency_key: String,
    pub produced_artifact_ids: Vec<String>,
}

/// A request for one job.
#[derive(Debug, Clone, PartialEq, Eq)]
pub struct ProjectionGetJobRequest {
    pub job_id: String,
}

/// A request for a page of an agent's jobs.
#[derive(Debug, Clone, PartialEq, Eq)]
pub struct ProjectionListJobsRequest {
    pub agent: String,
    pub kind: Option<ProjectionKindFilter>,
    pub status: Option<ProjectionJobStatus>,
    pub limit: Option<usize>,
    pub offset: Option<usize>,
}

/// A request for one artifact.
#[derive(Debug, Clone, PartialEq, Eq)]
pub struct ProjectionGetArtifactRequest {
    pub artifact_id: String,
}

/// A request for a page of an agent's artifacts.
#[derive(Debug, Clone, PartialEq, Eq)]
pub struct ProjectionListArtifactsRequest {
    pub agent: String,
    pub kind: Option<ArtifactKind>,
    pub status: Option<ArtifactStatus>,
    pub granularity: Option<String>,
    pub limit: Option<usize>,
    pub offset: Option<usize>,
}

/// A text search over an agent's artifacts.
#[derive(Debug, Clone, PartialEq, Eq)]
pub struct ProjectionSearchArtifactsRequest {
    pub agent: String,
    pub q: String,
    pub kind: Option<ArtifactKind>,
    pub limit: Option<usize>,
}

/// A request to re-project an agent's stale artifacts.
#[derive(Debug, Clone, PartialEq, Eq)]
pub struct ProjectionRefreshStaleRequest {
    pub agent: String,
    pub kind: ProjectionKindFilter,
    pub limit: Option<usize>,
}

/// A page of jobs.
#[derive(Debug, Clone, PartialEq, Eq)]
pub struct ProjectionJobListResponse {
    pub jobs: Vec<ProjectionJob>,
    pub total_count: usize,
    pub limit: usize,
    pub offset: usize,
}

/// The jobs started by a refresh.
#[derive(Debug, Clone, PartialEq, Eq)]
pub struct ProjectionRefreshStaleResponse {
    pub enqueued_job_ids: Vec<String>,
    pub skipped_count: usize,
}

} // verus!
