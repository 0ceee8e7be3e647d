//! Projection runtime: the decisions behind enqueueing, listing, searching and refreshing
//! projection artifacts. Reading and writing the JSON files is left to the caller.
use std::hash::{Hash, Hasher};

use vstd::prelude::*;

use crate::error::PhronesisError;
use crate::fs::sources::{
    excerpt_of, excerpts, explicit_decision_source, source_document, important_events_from_sources, is_decision_source,
    open_loops_from, open_loops_from_sources, recommended_action_from,
    recommended_action_from_sources, source_excerpt, source_kind_for_path, source_kind_of,
    summary_from, summary_from_sources, themes_from, themes_from_sources, title_from,
    title_from_sources, SourceDocument,
};
use crate::text::{
    ascii_lower, ascii_lowercase, hex_char, chars_of, is_ascii_text, lowercase_of, split_ws, split_ws_str, to_lowercase, trim_non_alnum,
    trim_non_alnum_str,
    after_last, after_last_str, join, join_strs, concat, concat3, contains, copy_str, decimal, hex_digits, push_decimal,
    push_hex, push_str, split_char, split_char_str, starts_with, str_contains, str_has_char,
    str_starts_with, trim_suffix_all, trim_suffix_all_str, underscore_non_alnum,
    underscore_non_alnum_str,
};
use crate::clock::{is_date_text, is_rfc3339_utc, now_rfc3339, today_utc};
use crate::listing::{
    distinct_keys, lemma_newest_first_same_items, lemma_pages_tile, newest_first, page, page_of,
    sort_desc_by_key, stable_sorted_desc,
};
use crate::types::{
    ProjectionEnqueueResult, ProjectionJob, ProjectionJobListResponse, ProjectionJobStatus,
    ProjectionRefreshStaleRequest, ProjectionSearchArtifactsRequest,
    ArtifactKind, ArtifactStatus, Claim, Confidence, EvidenceRef, EvidenceRelation, Freshness,
    ProjectionEnqueueRequestPayload, ProjectionKindFilter, ProjectionScope, Sensitivity,
    SourceWatermark,
};

verus! {

/// The filter that selects exactly artifacts of `kind`.
pub open spec fn filter_of_kind(kind: ArtifactKind) -> ProjectionKindFilter {
    match kind {
        ArtifactKind::Wisdom => ProjectionKindFilter::Wisdom,
        ArtifactKind::Decision => ProjectionKindFilter::Decision,
        ArtifactKind::TemporalRollup => ProjectionKindFilter::TemporalRollup,
        ArtifactKind::Report => ProjectionKindFilter::Report,
    }
}

/// The artifact kind a filter selects, none for `All`.
pub open spec fn artifact_of_filter(kind: ProjectionKindFilter) -> Option<ArtifactKind> {
    match kind {
        ProjectionKindFilter::Wisdom => Some(ArtifactKind::Wisdom),
        ProjectionKindFilter::Decision => Some(ArtifactKind::Decision),
        ProjectionKindFilter::TemporalRollup => Some(ArtifactKind::TemporalRollup),
        ProjectionKindFilter::Report => Some(ArtifactKind::Report),
        ProjectionKindFilter::All => None,
    }
}

/// The artifact kind a filter selects, none for `All`.
pub fn kind_filter_to_artifact(kind: ProjectionKindFilter) -> (r: Option<ArtifactKind>)
    ensures
        r == artifact_of_filter(kind),
{
    match kind {
        ProjectionKindFilter::Wisdom => Some(ArtifactKind::Wisdom),
        ProjectionKindFilter::Decision => Some(ArtifactKind::Decision),
        ProjectionKindFilter::TemporalRollup => Some(ArtifactKind::TemporalRollup),
        ProjectionKindFilter::Report => Some(ArtifactKind::Report),
        ProjectionKindFilter::All => None,
    }
}

impl From<ArtifactKind> for ProjectionKindFilter {
    fn from(value: ArtifactKind) -> (r: Self) {
        match value {
            ArtifactKind::Wisdom => ProjectionKindFilter::Wisdom,
            ArtifactKind::Decision => ProjectionKindFilter::Decision,
            ArtifactKind::TemporalRollup => ProjectionKindFilter::TemporalRollup,
            ArtifactKind::Report => ProjectionKindFilter::Report,
        }
    }
}

impl vstd::std_specs::convert::FromSpecImpl<ArtifactKind> for ProjectionKindFilter {
    open spec fn obeys_from_spec() -> bool {
        true
    }

    open spec fn from_spec(v: ArtifactKind) -> Self {
        filter_of_kind(v)
    }
}

/// A relative source path that must be refused outright: empty, absolute, climbing out
/// with `..`, or holding a backslash.
pub open spec fn unsafe_source_path(rel: Seq<char>) -> bool {
    rel.len() == 0 || starts_with(rel, "/"@) || contains(rel, ".."@) || rel.contains('\\')
}

/// A relative source path under one of the roots projections read from.
pub open spec fn supported_source_root(rel: Seq<char>) -> bool {
    starts_with(rel, "raw/semantic/"@) || starts_with(rel, "raw/temporal/"@) || starts_with(
        rel,
        "docs/"@,
    )
}

/// Checks that a source path is relative, stays inside the agent's tree and lies under
/// `raw/semantic/`, `raw/temporal/` or `docs/`.
pub fn validate_source_path(rel: &str) -> (r: Result<(), PhronesisError>)
    ensures
        r is Ok <==> !unsafe_source_path(rel@) && supported_source_root(rel@),
        r matches Err(e) ==> e == PhronesisError::Validation(e->Validation_0),
        r matches Err(e) ==> unsafe_source_path(rel@) ==> e->Validation_0@ == "unsafe source path: "@
            + rel@,
        r matches Err(e) ==> !unsafe_source_path(rel@) ==> e->Validation_0@
            == "unsupported source path root: "@ + rel@,
{
    if rel.is_empty() || str_starts_with(rel, "/") || str_contains(rel, "..") || str_has_char(
        rel,
        '\\',
    ) {
        return Err(PhronesisError::Validation(concat("unsafe source path: ", rel)));
    }
    if !(str_starts_with(rel, "raw/semantic/") || str_starts_with(rel, "raw/temporal/")
        || str_starts_with(rel, "docs/")) {
        return Err(PhronesisError::Validation(concat("unsupported source path root: ", rel)));
    }
    Ok(())
}

/// The kind an artifact id names: by the prefix of the part after its last `:`.
pub open spec fn kind_of_id(id: Seq<char>) -> Option<ArtifactKind> {
    let local = after_last(id, ':');
    if starts_with(local, "cand_"@) {
        Some(ArtifactKind::Wisdom)
    } else if starts_with(local, "dec_"@) {
        Some(ArtifactKind::Decision)
    } else if starts_with(local, "roll_"@) {
        Some(ArtifactKind::TemporalRollup)
    } else if starts_with(local, "rep_"@) {
        Some(ArtifactKind::Report)
    } else {
        None
    }
}

/// The kind of the artifact with id `artifact_id`; not found when the id names none.
pub fn artifact_kind_from_id(artifact_id: &str) -> (r: Result<ArtifactKind, PhronesisError>)
    ensures
        r is Ok <==> kind_of_id(artifact_id@) is Some,
        r matches Ok(k) ==> kind_of_id(artifact_id@) == Some(k),
        r matches Err(e) ==> e == PhronesisError::NotFound(e->NotFound_0)
            && e->NotFound_0@ == "unknown artifact id: "@ + artifact_id@,
{
    let local = after_last_str(artifact_id, ':');
    let l = local.as_str();
    if str_starts_with(l, "cand_") {
        Ok(ArtifactKind::Wisdom)
    } else if str_starts_with(l, "dec_") {
        Ok(ArtifactKind::Decision)
    } else if str_starts_with(l, "roll_") {
        Ok(ArtifactKind::TemporalRollup)
    } else if str_starts_with(l, "rep_") {
        Ok(ArtifactKind::Report)
    } else {
        Err(PhronesisError::NotFound(concat("unknown artifact id: ", artifact_id)))
    }
}

/// The directory of projections, relative to the data root.
pub open spec fn projection_root_path() -> Seq<char> {
    "projections"@
}

/// The directory of the artifacts of `kind`, relative to the data root.
pub open spec fn artifacts_dir_of(kind: ArtifactKind) -> Seq<char> {
    "projections/artifacts/"@ + crate::types::kind_name(kind)
}

/// The directory of jobs, relative to the data root.
pub open spec fn jobs_dir_path() -> Seq<char> {
    "projections/jobs"@
}

/// The file of the artifact `artifact_id` of `kind`, relative to the data root.
pub open spec fn artifact_path_of(kind: ArtifactKind, artifact_id: Seq<char>) -> Seq<char> {
    artifacts_dir_of(kind) + "/"@ + artifact_id + ".json"@
}

/// The file of the job `job_id`, relative to the data root.
pub open spec fn job_path_of(job_id: Seq<char>) -> Seq<char> {
    jobs_dir_path() + "/"@ + job_id + ".json"@
}

/// The directory of projections, relative to the data root.
pub fn projection_root() -> (r: String)
    ensures
        r@ == projection_root_path(),
{
    copy_str("projections")
}

/// The directory of the artifacts of `kind`, relative to the data root.
pub fn artifacts_dir(kind: ArtifactKind) -> (r: String)
    ensures
        r@ == artifacts_dir_of(kind),
{
    concat("projections/artifacts/", kind.as_str())
}

/// The directory of jobs, relative to the data root.
pub fn jobs_dir() -> (r: String)
    ensures
        r@ == jobs_dir_path(),
{
    copy_str("projections/jobs")
}

/// The file of the artifact `artifact_id` of `kind`, relative to the data root.
pub fn artifact_path(kind: ArtifactKind, artifact_id: &str) -> (r: String)
    ensures
        r@ == artifact_path_of(kind, artifact_id@),
{
    let mut r = artifacts_dir(kind);
    push_str(&mut r, "/");
    push_str(&mut r, artifact_id);
    push_str(&mut r, ".json");
    assert(r@ =~= artifact_path_of(kind, artifact_id@));
    r
}

/// The file of the job `job_id`, relative to the data root.
pub fn job_path(job_id: &str) -> (r: String)
    ensures
        r@ == job_path_of(job_id@),
{
    let mut r = jobs_dir();
    push_str(&mut r, "/");
    push_str(&mut r, job_id);
    push_str(&mut r, ".json");
    assert(r@ =~= job_path_of(job_id@));
    r
}

/// Where the artifact with id `artifact_id` is stored: the file in the directory of the
/// kind its id names; not found when the id names none.
pub fn artifact_location(artifact_id: &str) -> (r: Result<String, PhronesisError>)
    ensures
        r is Ok <==> kind_of_id(artifact_id@) is Some,
        r matches Ok(p) ==> p@ == artifact_path_of(kind_of_id(artifact_id@)->0, artifact_id@),
        r matches Err(e) ==> e == PhronesisError::NotFound(e->NotFound_0)
            && e->NotFound_0@ == "unknown artifact id: "@ + artifact_id@,
{
    match artifact_kind_from_id(artifact_id) {
        Ok(kind) => Ok(artifact_path(kind, artifact_id)),
        Err(e) => Err(e),
    }
}

/// `s` holds no `:`.
pub open spec fn colon_free(s: Seq<char>) -> bool {
    forall|i: int| 0 <= i < s.len() ==> s[i] != ':'
}

/// Hexadecimal digits are letters and digits.
proof fn lemma_hex_digits_colon_free(n: nat, k: nat)
    ensures
        colon_free(hex_digits(n, k)),
    decreases k,
{
    if k > 0 {
        lemma_hex_digits_colon_free(n / 16, (k - 1) as nat);
        let d = n % 16;
        assert(hex_char(d) != ':');
    }
}

/// The part of an artifact id after its kind prefix holds no `:`, unless it comes from a
/// granularity that does.
proof fn lemma_id_base_colon_free(scope: ProjectionScope, sources: Seq<SourceDocument>)
    ensures
        colon_free(
            if scope.source_paths.len() > 0 {
                sanitized(scope.source_paths[0]@)
            } else if sources.len() > 0 {
                sanitized(sources[0].path@)
            } else {
                stable_id_of("scope"@, scope.agent@)
            },
        ),
{
    reveal_strlit("scope");
    lemma_hex_digits_colon_free(spec_default_hash(scope.agent@) as nat, 16);
    let h = hex_digits(spec_default_hash(scope.agent@) as nat, 16);
    let st = "scope"@ + seq!['_'] + h;
    assert forall|i: int| 0 <= i < st.len() implies st[i] != ':' by {
        if i >= 6 {
            assert(st[i] == h[i - 6]);
        }
    }
}

/// What follows the last `:` of `prefix + ":" + tail` is `tail`, when `tail` holds none.
proof fn lemma_after_last_colon(prefix: Seq<char>, tail: Seq<char>)
    requires
        colon_free(tail),
    ensures
        after_last(prefix + seq![':'] + tail, ':') == tail,
{
    let s = prefix + seq![':'] + tail;
    let k: int = prefix.len() as int + 1;
    assert forall|j: int| k <= j < s.len() implies s[j] != ':' by {
        assert(s[j] == tail[j - k]);
    }
    crate::text::lemma_after_last(s, ':', k);
    assert(s.skip(k) =~= tail);
}

/// An artifact projected by an enqueue is found again by its id: the id names the
/// artifact's kind, so the file it is read from is the file it was written to. For a
/// temporal rollup this needs a granularity without `:`.
pub proof fn lemma_artifact_found_by_id(kind: ArtifactKind, scope: ProjectionScope, sources: Seq<SourceDocument>)
    requires
        kind == ArtifactKind::TemporalRollup ==> (scope.granularity matches Some(g) ==> colon_free(g@)),
    ensures
        kind_of_id(artifact_id_of(kind, scope, sources)) == Some(kind),
{
    reveal_strlit(":cand_");
    reveal_strlit(":dec_");
    reveal_strlit(":roll_");
    reveal_strlit(":rep_");
    reveal_strlit("cand_");
    reveal_strlit("dec_");
    reveal_strlit("roll_");
    reveal_strlit("rep_");
    reveal_strlit("daily");
    lemma_id_base_colon_free(scope, sources);
    let base = if scope.source_paths.len() > 0 {
        sanitized(scope.source_paths[0]@)
    } else if sources.len() > 0 {
        sanitized(sources[0].path@)
    } else {
        stable_id_of("scope"@, scope.agent@)
    };
    let agent = scope.agent@;
    let tag: Seq<char> = match kind {
        ArtifactKind::Wisdom => "cand_"@,
        ArtifactKind::Decision => "dec_"@,
        ArtifactKind::TemporalRollup => "roll_"@,
        ArtifactKind::Report => "rep_"@,
    };
    let gran: Seq<char> = match scope.granularity {
        Some(g) => g@,
        None => "daily"@,
    };
    let mid: Seq<char> = if kind == ArtifactKind::TemporalRollup {
        gran + seq!['_']
    } else {
        Seq::empty()
    };
    let tail = tag + mid + base;
    assert(colon_free(tail)) by {
        assert forall|i: int| 0 <= i < tail.len() implies tail[i] != ':' by {
            if i < tag.len() {
            } else if i < tag.len() + mid.len() {
                assert(tail[i] == mid[i - tag.len()]);
            } else {
                assert(tail[i] == base[i - tag.len() - mid.len()]);
            }
        }
    }
    assert(artifact_id_of(kind, scope, sources) =~= agent + seq![':'] + tail);
    lemma_after_last_colon(agent, tail);
    assert(tail.subrange(0, tag.len() as int) =~= tag);
    assert(starts_with(tail, tag));
    assert(tail[0] == tag[0]);
    if kind != ArtifactKind::Wisdom {
        if tail.len() >= 5 {
            assert(tail.subrange(0, 5)[0] == tail[0]);
        }
        assert(!starts_with(tail, "cand_"@));
    }
    if kind == ArtifactKind::TemporalRollup || kind == ArtifactKind::Report {
        assert(tail.subrange(0, 4)[0] == tail[0]);
        assert(!starts_with(tail, "dec_"@));
    }
    if kind == ArtifactKind::Report {
        assert(tail[1] == tag[1]);
        if tail.len() >= 5 {
            assert(tail.subrange(0, 5)[1] == tail[1]);
        }
        assert(!starts_with(tail, "roll_"@));
    }
}

/// What `std::collections::hash_map::DefaultHasher::new()` finishes with after hashing a
/// string. `DefaultHasher::new` is documented to give the same hasher every time it is
/// called (no per-process seed); its algorithm may change between Rust releases, so the
/// name stands for the hash of the toolchain the program is built with.
pub uninterp spec fn spec_default_hash(value: Seq<char>) -> u64;

/// Hashes `value` with a fresh `DefaultHasher` (`Hash::hash`, then `Hasher::finish`).
#[verifier::external_body]
pub(crate) fn default_hash(value: &str) -> (h: u64)
    ensures
        h == spec_default_hash(value@),
{
    let mut hasher = std::collections::hash_map::DefaultHasher::new();
    value.hash(&mut hasher);
    hasher.finish()
}

/// What a fresh `DefaultHasher` finishes with after hashing the string `a` and then the
/// string `b`.
pub uninterp spec fn spec_default_hash_pair(a: Seq<char>, b: Seq<char>) -> u64;

/// Hashes `a` and then `b` with a fresh `DefaultHasher` (`Hash::hash` twice, then
/// `Hasher::finish`).
#[verifier::external_body]
pub(crate) fn default_hash_pair(a: &str, b: &str) -> (h: u64)
    ensures
        h == spec_default_hash_pair(a@, b@),
{
    let mut hasher = std::collections::hash_map::DefaultHasher::new();
    a.hash(&mut hasher);
    b.hash(&mut hasher);
    hasher.finish()
}

/// The content hash of an artifact of kind `kind` whose body serializes to `body_text`:
/// the 16 lowercase hex digits of the hash of the kind's name and the text.
pub open spec fn content_hash_of(kind: ArtifactKind, body_text: Seq<char>) -> Seq<char> {
    hex_digits(spec_default_hash_pair(crate::types::kind_name(kind), body_text) as nat, 16)
}

/// The content hash of an artifact of kind `kind` whose body serializes to `body_text`.
pub fn content_hash(kind: ArtifactKind, body_text: &str) -> (r: String)
    ensures
        r@ == content_hash_of(kind, body_text@),
{
    let h = default_hash_pair(kind.as_str(), body_text);
    let mut r = String::new();
    push_hex(&mut r, h, 16);
    assert(r@ =~= content_hash_of(kind, body_text@));
    r
}

/// A stable identifier: `prefix`, `_` and the 16 lowercase hex digits of the hash of `value`.
pub open spec fn stable_id_of(prefix: Seq<char>, value: Seq<char>) -> Seq<char> {
    prefix + seq!['_'] + hex_digits(spec_default_hash(value) as nat, 16)
}

/// A stable identifier for `value`.
pub fn stable_id(prefix: &str, value: &str) -> (r: String)
    ensures
        r@ == stable_id_of(prefix@, value@),
{
    let h = default_hash(value);
    let mut r = copy_str(prefix);
    crate::text::push_char(&mut r, '_');
    push_hex(&mut r, h, 16);
    assert(r@ =~= stable_id_of(prefix@, value@));
    r
}

/// A path turned into an identifier token: `.md` endings dropped, every character that is
/// not an ASCII letter or digit made `_`.
pub open spec fn sanitized(value: Seq<char>) -> Seq<char> {
    underscore_non_alnum(trim_suffix_all(value, ".md"@))
}

/// A path turned into an identifier token.
pub fn sanitize_token(value: &str) -> (r: String)
    ensures
        r@ == sanitized(value@),
{
    let t = trim_suffix_all_str(value, ".md");
    underscore_non_alnum_str(t.as_str())
}

/// The identifier of the artifact of `kind` for `scope`: the agent, `:`, a kind prefix
/// and a token of the first source path (or of the agent when there is none).
pub open spec fn artifact_id_of(kind: ArtifactKind, scope: ProjectionScope, sources: Seq<SourceDocument>) -> Seq<char> {
    let base = if scope.source_paths.len() > 0 {
        sanitized(scope.source_paths[0]@)
    } else if sources.len() > 0 {
        sanitized(sources[0].path@)
    } else {
        stable_id_of("scope"@, scope.agent@)
    };
    let agent = scope.agent@;
    match kind {
        ArtifactKind::Wisdom => agent + ":cand_"@ + base,
        ArtifactKind::Decision => agent + ":dec_"@ + base,
        ArtifactKind::TemporalRollup => agent + ":roll_"@ + match scope.granularity {
            Some(g) => g@,
            None => "daily"@,
        } + seq!['_'] + base,
        ArtifactKind::Report => agent + ":rep_"@ + base,
    }
}

/// The identifier of the artifact of `kind` for `scope`.
pub fn artifact_id_for(kind: ArtifactKind, scope: &ProjectionScope, sources: &Vec<SourceDocument>) -> (r: String)
    ensures
        r@ == artifact_id_of(kind, *scope, sources@),
{
    let base = if scope.source_paths.len() > 0 {
        sanitize_token(scope.source_paths[0].as_str())
    } else if sources.len() > 0 {
        sanitize_token(sources[0].path.as_str())
    } else {
        stable_id("scope", scope.agent.as_str())
    };
    let agent = scope.agent.as_str();
    match kind {
        ArtifactKind::Wisdom => concat3(agent, ":cand_", base.as_str()),
        ArtifactKind::Decision => concat3(agent, ":dec_", base.as_str()),
        ArtifactKind::TemporalRollup => {
            let mut r = concat(agent, ":roll_");
            match &scope.granularity {
                Some(g) => push_str(&mut r, g.as_str()),
                None => push_str(&mut r, "daily"),
            }
            crate::text::push_char(&mut r, '_');
            push_str(&mut r, base.as_str());
            assert(r@ =~= artifact_id_of(kind, *scope, sources@));
            r
        },
        ArtifactKind::Report => concat3(agent, ":rep_", base.as_str()),
    }
}

/// A temporal rollup is projected when a granularity is given or some source lies under
/// `raw/temporal/`.
pub open spec fn emits_rollup(granularity: Option<String>, sources: Seq<SourceDocument>) -> bool {
    granularity is Some || exists|i: int| 0 <= i < sources.len() && starts_with(
        #[trigger] sources[i].path@,
        "raw/temporal/"@,
    )
}

/// Whether a temporal rollup is projected.
pub fn should_emit_rollup(granularity: &Option<String>, sources: &Vec<SourceDocument>) -> (b: bool)
    ensures
        b == emits_rollup(*granularity, sources@),
{
    if granularity.is_some() {
        return true;
    }
    let mut i: usize = 0;
    while i < sources.len()
        invariant
            i <= sources.len(),
            forall|j: int| 0 <= j < i ==> !starts_with(#[trigger] sources@[j].path@, "raw/temporal/"@),
        decreases sources.len() - i,
    {
        if str_starts_with(sources[i].path.as_str(), "raw/temporal/") {
            return true;
        }
        i = i + 1;
    }
    false
}

/// One of the granularities a temporal path may name.
pub open spec fn is_granularity_name(s: Seq<char>) -> bool {
    s == "daily"@ || s == "weekly"@ || s == "monthly"@
}

/// The granularity a source path names: its third `/`-separated piece, when that is
/// `daily`, `weekly` or `monthly`.
pub open spec fn path_granularity(path: Seq<char>) -> Option<Seq<char>> {
    let parts = split_char(path, '/');
    if parts.len() > 2 && is_granularity_name(parts[2]) {
        Some(parts[2])
    } else {
        None
    }
}

/// The granularity named by the first source that names one.
pub open spec fn first_path_granularity(sources: Seq<SourceDocument>) -> Option<Seq<char>>
    decreases sources.len(),
{
    if sources.len() == 0 {
        None
    } else {
        match path_granularity(sources[0].path@) {
            Some(g) => Some(g),
            None => first_path_granularity(sources.drop_first()),
        }
    }
}

/// The granularity of a rollup: the requested one, else the first one a source path
/// names, else `daily`.
pub open spec fn rollup_granularity_of(granularity: Option<String>, sources: Seq<SourceDocument>) -> Seq<char> {
    match granularity {
        Some(g) => g@,
        None => match first_path_granularity(sources) {
            Some(g) => g,
            None => "daily"@,
        },
    }
}

proof fn lemma_first_path_granularity(sources: Seq<SourceDocument>, i: int)
    requires
        0 <= i <= sources.len(),
        forall|j: int| 0 <= j < i ==> path_granularity(#[trigger] sources[j].path@) is None,
    ensures
        first_path_granularity(sources) == first_path_granularity(sources.skip(i)),
    decreases i,
{
    if i > 0 {
        assert(sources.drop_first().skip(i - 1) =~= sources.skip(i));
        assert forall|j: int| 0 <= j < i - 1 implies path_granularity(
            #[trigger] sources.drop_first()[j].path@,
        ) is None by {
            assert(sources.drop_first()[j] == sources[j + 1]);
        }
        lemma_first_path_granularity(sources.drop_first(), i - 1);
    } else {
        assert(sources.skip(0) =~= sources);
    }
}

/// The granularity of a rollup.
pub fn rollup_granularity(granularity: &Option<String>, sources: &Vec<SourceDocument>) -> (r: String)
    ensures
        r@ == rollup_granularity_of(*granularity, sources@),
{
    if let Some(g) = granularity {
        return g.clone();
    }
    let mut i: usize = 0;
    while i < sources.len()
        invariant
            i <= sources.len(),
            granularity is None,
            forall|j: int| 0 <= j < i ==> path_granularity(#[trigger] sources@[j].path@) is None,
        decreases sources.len() - i,
    {
        let parts = split_char_str(sources[i].path.as_str(), '/');
        if parts.len() > 2 {
            let p = parts[2].as_str();
            proof {
                reveal_strlit("daily");
                reveal_strlit("weekly");
                reveal_strlit("monthly");
            }
            if str_eq(p, "daily") || str_eq(p, "weekly") || str_eq(p, "monthly") {
                proof {
                    lemma_first_path_granularity(sources@, i as int);
                    assert(sources@.skip(i as int)[0] == sources@[i as int]);
                }
                return parts[2].clone();
            }
        }
        i = i + 1;
    }
    proof {
        lemma_first_path_granularity(sources@, i as int);
        assert(sources@.skip(i as int).len() == 0);
    }
    copy_str("daily")
}

/// Without a requested granularity, a rollup takes the third `/`-separated piece of the
/// first source path whose third piece is `daily`, `weekly` or `monthly` (so a source
/// `raw/temporal/weekly/x.md` gives `weekly`), and `daily` only when no source path names
/// one; a requested granularity is taken as it is.
pub proof fn lemma_rollup_granularity_from_paths(granularity: Option<String>, sources: Seq<SourceDocument>)
    ensures
        granularity matches Some(g) ==> rollup_granularity_of(granularity, sources) == g@,
        granularity is None ==> forall|i: int|
            #![trigger sources[i]]
            0 <= i < sources.len() && split_char(sources[i].path@, '/').len() > 2 && {
                let p = split_char(sources[i].path@, '/')[2];
                p == "daily"@ || p == "weekly"@ || p == "monthly"@
            } && (forall|j: int|
                #![trigger sources[j]]
                0 <= j < i ==> !(split_char(sources[j].path@, '/').len() > 2 && {
                    let p = split_char(sources[j].path@, '/')[2];
                    p == "daily"@ || p == "weekly"@ || p == "monthly"@
                })) ==> rollup_granularity_of(granularity, sources) == split_char(sources[i].path@, '/')[2],
        granularity is None && (forall|j: int|
            #![trigger sources[j]]
            0 <= j < sources.len() ==> !(split_char(sources[j].path@, '/').len() > 2 && {
                let p = split_char(sources[j].path@, '/')[2];
                p == "daily"@ || p == "weekly"@ || p == "monthly"@
            })) ==> rollup_granularity_of(granularity, sources) == "daily"@,
{
    if granularity is None {
        assert forall|i: int|
            #![trigger sources[i]]
            0 <= i < sources.len() && split_char(sources[i].path@, '/').len() > 2 && {
                let p = split_char(sources[i].path@, '/')[2];
                p == "daily"@ || p == "weekly"@ || p == "monthly"@
            } && (forall|j: int|
                #![trigger sources[j]]
                0 <= j < i ==> !(split_char(sources[j].path@, '/').len() > 2 && {
                    let p = split_char(sources[j].path@, '/')[2];
                    p == "daily"@ || p == "weekly"@ || p == "monthly"@
                })) implies rollup_granularity_of(granularity, sources) == split_char(sources[i].path@, '/')[2] by {
            assert forall|j: int| 0 <= j < i implies path_granularity(#[trigger] sources[j].path@) is None by {
                assert(sources[j] == sources[j]);
            }
            lemma_first_path_granularity(sources, i);
            assert(sources.skip(i)[0] == sources[i]);
        }
        if forall|j: int|
            #![trigger sources[j]]
            0 <= j < sources.len() ==> !(split_char(sources[j].path@, '/').len() > 2 && {
                let p = split_char(sources[j].path@, '/')[2];
                p == "daily"@ || p == "weekly"@ || p == "monthly"@
            }) {
            assert forall|j: int| 0 <= j < sources.len() implies path_granularity(#[trigger] sources[j].path@) is None by {
                assert(sources[j] == sources[j]);
            }
            lemma_first_path_granularity(sources, sources.len() as int);
            assert(sources.skip(sources.len() as int).len() == 0);
        }
    }
}

/// Whether two strings are equal.
pub fn str_eq(a: &str, b: &str) -> (r: bool)
    ensures
        r == (a@ == b@),
{
    let va = crate::text::chars_of(a);
    let vb = crate::text::chars_of(b);
    if va.len() != vb.len() {
        return false;
    }
    let mut i: usize = 0;
    while i < va.len()
        invariant
            i <= va.len(),
            va.len() == vb.len(),
            va@ == a@,
            vb@ == b@,
            forall|j: int| 0 <= j < i ==> va@[j] == vb@[j],
        decreases va.len() - i,
    {
        if va[i] != vb[i] {
            return false;
        }
        i = i + 1;
    }
    assert(a@ =~= b@);
    true
}


/// A link between a claim and the evidence behind it. Stored with weight 1.
#[derive(Debug, Clone, PartialEq, Eq)]
pub struct EvidenceLink {
    pub claim_id: String,
    pub evidence_id: String,
    pub relation: EvidenceRelation,
}

/// A section of a report: a heading and the claims it presents.
#[derive(Debug, Clone, PartialEq, Eq)]
pub struct ReportSection {
    pub heading: String,
    pub claim_ids: Vec<String>,
}

/// The body of an artifact, by kind.
#[derive(Debug, Clone, PartialEq, Eq)]
pub enum ArtifactBody {
    Wisdom {
        title: String,
        summary: String,
        recommended_action: String,
        applies_when: Vec<String>,
        avoid_when: Vec<String>,
        warnings: Vec<String>,
        confidence: String,
        support_count: usize,
        contradiction_count: usize,
    },
    Decision {
        title: String,
        summary: String,
        decision_type: String,
        decision_status: String,
        confidence: String,
        decided_at: Option<String>,
        rationale: Option<String>,
        outcome: String,
    },
    TemporalRollup {
        granularity: String,
        period_start: String,
        period_end: String,
        summary: String,
        themes: Vec<String>,
        open_loops: Vec<String>,
        important_events: Vec<String>,
    },
    Report { title: String, scope: String, summary: String, sections: Vec<ReportSection> },
}

/// A projected artifact as decided here; its content hash is taken over the serialized
/// body when it is written.
#[derive(Debug, Clone, PartialEq, Eq)]
pub struct ArtifactDraft {
    pub schema_version: u32,
    pub artifact_id: String,
    pub kind: ArtifactKind,
    pub agent: String,
    pub created_at: String,
    pub source_watermark: SourceWatermark,
    pub idempotency_key: String,
    pub status: ArtifactStatus,
    pub freshness: Freshness,
    pub claims: Vec<Claim>,
    pub evidence: Vec<EvidenceRef>,
    pub links: Vec<EvidenceLink>,
    pub body: ArtifactBody,
}

/// A copy of a watermark.
pub fn copy_watermark(w: &SourceWatermark) -> (r: SourceWatermark)
    ensures
        r == *w,
{
    SourceWatermark {
        content_hash: w.content_hash.clone(),
        latest_mtime: w.latest_mtime.clone(),
        source_count: w.source_count,
    }
}

/// The `i`-th claim of the evidence graph of `src` (counting from zero).
pub open spec fn claim_is(c: Claim, i: int, src: SourceDocument) -> bool {
    &&& c.claim_id@ == "claim_"@ + decimal((i + 1) as nat)
    &&& c.text@ == src.excerpt@
    &&& c.scope@ == src.path@
    &&& c.confidence == Confidence::High
}

/// The `i`-th evidence of the graph for `agent` and `src`, recorded at `now`.
pub open spec fn evidence_is(e: EvidenceRef, i: int, agent: Seq<char>, src: SourceDocument, now: Seq<char>) -> bool {
    &&& e.evidence_id@ == "ev_"@ + decimal((i + 1) as nat)
    &&& e.source_kind == source_kind_of(src.path@)
    &&& e.agent@ == agent
    &&& e.path@ == src.path@
    &&& e.record_id matches Some(r) && r@ == stable_id_of("rec"@, src.path@)
    &&& e.span is None
    &&& e.excerpt@ == src.excerpt@
    &&& e.timestamp matches Some(t) && t@ == now
    &&& e.sensitivity == Sensitivity::Operator
}

/// The `i`-th link of the graph: claim `i` supported by evidence `i`.
pub open spec fn link_is(l: EvidenceLink, i: int) -> bool {
    &&& l.claim_id@ == "claim_"@ + decimal((i + 1) as nat)
    &&& l.evidence_id@ == "ev_"@ + decimal((i + 1) as nat)
    &&& l.relation == EvidenceRelation::Supports
}

/// The evidence graph of `sources`: one claim, one piece of evidence and one supporting
/// link per source, in order.
pub open spec fn graph_is(
    claims: Seq<Claim>,
    evidence: Seq<EvidenceRef>,
    links: Seq<EvidenceLink>,
    agent: Seq<char>,
    sources: Seq<SourceDocument>,
    now: Seq<char>,
) -> bool {
    &&& claims.len() == sources.len()
    &&& evidence.len() == sources.len()
    &&& links.len() == sources.len()
    &&& forall|i: int| 0 <= i < sources.len() ==> claim_is(#[trigger] claims[i], i, sources[i])
    &&& forall|i: int| 0 <= i < sources.len() ==> evidence_is(#[trigger] evidence[i], i, agent, sources[i], now)
    &&& forall|i: int| 0 <= i < sources.len() ==> link_is(#[trigger] links[i], i)
}

/// `prefix` followed by the decimal spelling of `n`.
fn numbered(prefix: &str, n: usize) -> (r: String)
    ensures
        r@ == prefix@ + decimal(n as nat),
{
    let mut r = copy_str(prefix);
    push_decimal(&mut r, n);
    r
}

/// The evidence graph of `sources` for `agent`, recorded at `now`.
pub fn evidence_graph(agent: &str, sources: &Vec<SourceDocument>, now: &str) -> (r: (
    Vec<Claim>,
    Vec<EvidenceRef>,
    Vec<EvidenceLink>,
))
    ensures
        graph_is(r.0@, r.1@, r.2@, agent@, sources@, now@),
{
    let mut claims: Vec<Claim> = Vec::new();
    let mut evidence: Vec<EvidenceRef> = Vec::new();
    let mut links: Vec<EvidenceLink> = Vec::new();
    let mut i: usize = 0;
    while i < sources.len()
        invariant
            i <= sources.len(),
            claims.len() == i,
            evidence.len() == i,
            links.len() == i,
            forall|j: int| 0 <= j < i ==> claim_is(#[trigger] claims@[j], j, sources@[j]),
            forall|j: int| 0 <= j < i ==> evidence_is(#[trigger] evidence@[j], j, agent@, sources@[j], now@),
            forall|j: int| 0 <= j < i ==> link_is(#[trigger] links@[j], j),
        decreases sources.len() - i,
    {
        let source = &sources[i];
        claims.push(
            Claim {
                claim_id: numbered("claim_", i + 1),
                text: source.excerpt.clone(),
                scope: source.path.clone(),
                confidence: Confidence::High,
            },
        );
        evidence.push(
            EvidenceRef {
                evidence_id: numbered("ev_", i + 1),
                source_kind: source_kind_for_path(source.path.as_str()),
                agent: copy_str(agent),
                path: source.path.clone(),
                record_id: Some(stable_id("rec", source.path.as_str())),
                span: None,
                excerpt: source.excerpt.clone(),
                timestamp: Some(copy_str(now)),
                sensitivity: Sensitivity::Operator,
            },
        );
        links.push(
            EvidenceLink {
                claim_id: numbered("claim_", i + 1),
                evidence_id: numbered("ev_", i + 1),
                relation: EvidenceRelation::Supports,
            },
        );
        i = i + 1;
    }
    (claims, evidence, links)
}

/// The value of an optional string, `dflt` when it is absent.
pub open spec fn or_default(o: Option<String>, dflt: Seq<char>) -> Seq<char> {
    match o {
        Some(s) => s@,
        None => dflt,
    }
}

/// The paths of a scope's sources.
pub open spec fn paths_view(paths: Seq<String>) -> Seq<Seq<char>> {
    paths.map_values(|p: String| p@)
}

/// The identifiers of a list of claims.
pub open spec fn claim_ids(claims: Seq<Claim>) -> Seq<Seq<char>> {
    claims.map_values(|c: Claim| c.claim_id@)
}

/// `body` is the body of an artifact of `kind` made for `req` from `sources`, with
/// `claims` as its claims and `today` as the default period.
pub open spec fn body_is(
    body: ArtifactBody,
    kind: ArtifactKind,
    req: ProjectionEnqueueRequestPayload,
    sources: Seq<SourceDocument>,
    claims: Seq<Claim>,
    today: Seq<char>,
) -> bool {
    let explicit = exists|i: int| 0 <= i < sources.len() && is_decision_source(#[trigger] sources[i]);
    match kind {
        ArtifactKind::Wisdom => body matches ArtifactBody::Wisdom {
            title,
            summary,
            recommended_action,
            applies_when,
            avoid_when,
            warnings,
            confidence,
            support_count,
            contradiction_count,
        } && title@ == title_from(sources, "Wisdom"@) && summary@ == summary_from(sources)
            && recommended_action@ == recommended_action_from(sources) && applies_when.deep_view()
            == seq!["Projection runtime artifacts are requested"@] && avoid_when.deep_view()
            == seq!["Source evidence is stale"@] && warnings.deep_view()
            == seq!["Review operator overlays may supersede this output"@] && confidence@ == "high"@
            && support_count == sources.len() && contradiction_count == 0,
        ArtifactKind::Decision => body matches ArtifactBody::Decision {
            title,
            summary,
            decision_type,
            decision_status,
            confidence,
            decided_at,
            rationale,
            outcome,
        } && title@ == title_from(sources, "Decision"@) && summary@ == summary_from(sources)
            && decision_type@ == (if explicit {
            "explicit"@
        } else {
            "inferred"@
        }) && decision_status@ == (if explicit {
            "canonical"@
        } else {
            "candidate"@
        }) && confidence@ == "high"@ && decided_at is None && (sources.len() == 0 ==> rationale is None)
            && (sources.len() > 0 ==> (rationale matches Some(r) && r@ == sources[0].excerpt@))
            && outcome@ == "projection_persisted"@,
        ArtifactKind::TemporalRollup => body matches ArtifactBody::TemporalRollup {
            granularity,
            period_start,
            period_end,
            summary,
            themes,
            open_loops,
            important_events,
        } && granularity@ == rollup_granularity_of(req.scope.granularity, sources) && period_start@
            == or_default(req.scope.period_start, today) && period_end@ == or_default(
            req.scope.period_end,
            today,
        ) && summary@ == summary_from(sources) && themes.deep_view() == themes_from(sources)
            && open_loops.deep_view() == open_loops_from(sources) && important_events.deep_view()
            == excerpts(sources),
        ArtifactKind::Report => body matches ArtifactBody::Report { title, scope, summary, sections }
            && title@ == title_from(sources, "Report"@) && scope@ == join(
            paths_view(req.scope.source_paths@),
            ", "@,
        ) && summary@ == summary_from(sources) && sections.len() == 1 && sections[0].heading@
            == "Findings"@ && sections[0].claim_ids.deep_view() == claim_ids(claims),
    }
}

/// A vector holding one string.
fn one_string(s: &str) -> (r: Vec<String>)
    ensures
        r.deep_view() == seq![s@],
{
    let mut r: Vec<String> = Vec::new();
    r.push(copy_str(s));
    assert(r.deep_view() =~= seq![s@]);
    r
}

/// The identifiers of `claims`.
fn claim_id_list(claims: &Vec<Claim>) -> (r: Vec<String>)
    ensures
        r.deep_view() == claim_ids(claims@),
{
    let mut r: Vec<String> = Vec::new();
    let mut i: usize = 0;
    while i < claims.len()
        invariant
            i <= claims.len(),
            r.deep_view() == claim_ids(claims@.take(i as int)),
        decreases claims.len() - i,
    {
        let ghost prev = r.deep_view();
        r.push(claims[i].claim_id.clone());
        assert(r.deep_view() =~= prev.push(claims@[i as int].claim_id@));
        assert(claim_ids(claims@.take(i + 1)) =~= claim_ids(claims@.take(i as int)).push(
            claims@[i as int].claim_id@,
        ));
        i = i + 1;
    }
    assert(claims@.take(claims.len() as int) =~= claims@);
    r
}

/// A copy of a list of strings.
fn copy_strings(v: &Vec<String>) -> (r: Vec<String>)
    ensures
        r.deep_view() == v.deep_view(),
        paths_view(v@) == r.deep_view(),
{
    let mut r: Vec<String> = Vec::new();
    let mut i: usize = 0;
    while i < v.len()
        invariant
            i <= v.len(),
            r.deep_view() == v.deep_view().take(i as int),
        decreases v.len() - i,
    {
        let ghost prev = r.deep_view();
        let c = v[i].clone();
        assert(c@ == v.deep_view()[i as int]);
        r.push(c);
        assert(r.deep_view() =~= prev.push(v.deep_view()[i as int]));
        assert(v.deep_view().take(i + 1) =~= v.deep_view().take(i as int).push(v.deep_view()[i as int]));
        i = i + 1;
    }
    assert(v.deep_view().take(v.len() as int) =~= v.deep_view());
    assert(paths_view(v@) =~= v.deep_view());
    r
}

/// The body of an artifact of `kind` for `req` from `sources`.
pub fn build_body(
    kind: ArtifactKind,
    req: &ProjectionEnqueueRequestPayload,
    sources: &Vec<SourceDocument>,
    claims: &Vec<Claim>,
    today: &str,
) -> (b: ArtifactBody)
    ensures
        body_is(b, kind, *req, sources@, claims@, today@),
{
    match kind {
        ArtifactKind::Wisdom => ArtifactBody::Wisdom {
            title: title_from_sources(sources, "Wisdom"),
            summary: summary_from_sources(sources),
            recommended_action: recommended_action_from_sources(sources),
            applies_when: one_string("Projection runtime artifacts are requested"),
            avoid_when: one_string("Source evidence is stale"),
            warnings: one_string("Review operator overlays may supersede this output"),
            confidence: copy_str("high"),
            support_count: sources.len(),
            contradiction_count: 0,
        },
        ArtifactKind::Decision => {
            let explicit = explicit_decision_source(sources);
            ArtifactBody::Decision {
                title: title_from_sources(sources, "Decision"),
                summary: summary_from_sources(sources),
                decision_type: if explicit {
                    copy_str("explicit")
                } else {
                    copy_str("inferred")
                },
                decision_status: if explicit {
                    copy_str("canonical")
                } else {
                    copy_str("candidate")
                },
                confidence: copy_str("high"),
                decided_at: None,
                rationale: source_excerpt(sources),
                outcome: copy_str("projection_persisted"),
            }
        },
        ArtifactKind::TemporalRollup => ArtifactBody::TemporalRollup {
            granularity: rollup_granularity(&req.scope.granularity, sources),
            period_start: match &req.scope.period_start {
                Some(p) => p.clone(),
                None => copy_str(today),
            },
            period_end: match &req.scope.period_end {
                Some(p) => p.clone(),
                None => copy_str(today),
            },
            summary: summary_from_sources(sources),
            themes: themes_from_sources(sources),
            open_loops: open_loops_from_sources(sources),
            important_events: important_events_from_sources(sources),
        },
        ArtifactKind::Report => {
            let paths = copy_strings(&req.scope.source_paths);
            let scope = join_strs(&paths, ", ");
            let mut sections: Vec<ReportSection> = Vec::new();
            sections.push(
                ReportSection { heading: copy_str("Findings"), claim_ids: claim_id_list(claims) },
            );
            ArtifactBody::Report {
                title: title_from_sources(sources, "Report"),
                scope,
                summary: summary_from_sources(sources),
                sections,
            }
        },
    }
}

/// `d` is the artifact of `kind` projected for `req` from `sources` at `now`.
pub open spec fn draft_is(
    d: ArtifactDraft,
    kind: ArtifactKind,
    req: ProjectionEnqueueRequestPayload,
    sources: Seq<SourceDocument>,
    now: Seq<char>,
    today: Seq<char>,
) -> bool {
    &&& d.schema_version == 1
    &&& d.artifact_id@ == artifact_id_of(kind, req.scope, sources)
    &&& d.kind == kind
    &&& d.agent@ == req.scope.agent@
    &&& d.created_at@ == now
    &&& d.source_watermark == req.source_watermark
    &&& d.idempotency_key@ == req.idempotency_key@
    &&& d.status == ArtifactStatus::Active
    &&& d.freshness == Freshness::Fresh
    &&& graph_is(d.claims@, d.evidence@, d.links@, req.scope.agent@, sources, now)
    &&& body_is(d.body, kind, req, sources, d.claims@, today)
}

/// The artifact of `kind` projected for `req` from `sources` at `now`.
pub fn build_artifact(
    kind: ArtifactKind,
    req: &ProjectionEnqueueRequestPayload,
    sources: &Vec<SourceDocument>,
    now: &str,
    today: &str,
) -> (d: ArtifactDraft)
    ensures
        draft_is(d, kind, *req, sources@, now@, today@),
{
    let artifact_id = artifact_id_for(kind, &req.scope, sources);
    let (claims, evidence, links) = evidence_graph(req.scope.agent.as_str(), sources, now);
    let body = build_body(kind, req, sources, &claims, today);
    ArtifactDraft {
        schema_version: 1,
        artifact_id,
        kind,
        agent: req.scope.agent.clone(),
        created_at: copy_str(now),
        source_watermark: copy_watermark(&req.source_watermark),
        idempotency_key: req.idempotency_key.clone(),
        status: ArtifactStatus::Active,
        freshness: Freshness::Fresh,
        claims,
        evidence,
        links,
        body,
    }
}


/// The kinds a filter asks for, in the order they are projected.
pub open spec fn kinds_requested(kind: ProjectionKindFilter) -> Seq<ArtifactKind> {
    match kind {
        ProjectionKindFilter::All => seq![
            ArtifactKind::Wisdom,
            ArtifactKind::Decision,
            ArtifactKind::Report,
            ArtifactKind::TemporalRollup,
        ],
        ProjectionKindFilter::Wisdom => seq![ArtifactKind::Wisdom],
        ProjectionKindFilter::Decision => seq![ArtifactKind::Decision],
        ProjectionKindFilter::Report => seq![ArtifactKind::Report],
        ProjectionKindFilter::TemporalRollup => seq![ArtifactKind::TemporalRollup],
    }
}

/// The kinds projected for a request: those asked for, the temporal rollup only when
/// `emits_rollup` holds.
pub open spec fn planned_kinds(kind: ProjectionKindFilter, emit: bool) -> Seq<ArtifactKind> {
    kinds_requested(kind).filter(|k: ArtifactKind| k != ArtifactKind::TemporalRollup || emit)
}

/// The kinds a filter asks for, in the order they are projected.
fn requested_kinds(kind: ProjectionKindFilter) -> (r: Vec<ArtifactKind>)
    ensures
        r@ == kinds_requested(kind),
{
    let mut r: Vec<ArtifactKind> = Vec::new();
    match kind {
        ProjectionKindFilter::All => {
            r.push(ArtifactKind::Wisdom);
            r.push(ArtifactKind::Decision);
            r.push(ArtifactKind::Report);
            r.push(ArtifactKind::TemporalRollup);
        },
        ProjectionKindFilter::Wisdom => r.push(ArtifactKind::Wisdom),
        ProjectionKindFilter::Decision => r.push(ArtifactKind::Decision),
        ProjectionKindFilter::Report => r.push(ArtifactKind::Report),
        ProjectionKindFilter::TemporalRollup => r.push(ArtifactKind::TemporalRollup),
    }
    assert(r@ =~= kinds_requested(kind));
    r
}

/// The artifacts projected for `req` from `sources` at `now`, one per planned kind, in order.
pub fn build_artifacts(
    req: &ProjectionEnqueueRequestPayload,
    sources: &Vec<SourceDocument>,
    now: &str,
    today: &str,
) -> (r: Vec<ArtifactDraft>)
    ensures
        r.len() == planned_kinds(req.kind, emits_rollup(req.scope.granularity, sources@)).len(),
        forall|i: int|
            0 <= i < r.len() ==> draft_is(
                #[trigger] r[i],
                planned_kinds(req.kind, emits_rollup(req.scope.granularity, sources@))[i],
                *req,
                sources@,
                now@,
                today@,
            ),
{
    let kinds = requested_kinds(req.kind);
    let emit = should_emit_rollup(&req.scope.granularity, sources);
    let ghost pred = |k: ArtifactKind| k != ArtifactKind::TemporalRollup || emit;
    let mut r: Vec<ArtifactDraft> = Vec::new();
    let mut i: usize = 0;
    while i < kinds.len()
        invariant
            i <= kinds.len(),
            kinds@ == kinds_requested(req.kind),
            emit == emits_rollup(req.scope.granularity, sources@),
            pred == (|k: ArtifactKind| k != ArtifactKind::TemporalRollup || emit),
            r.len() == kinds@.take(i as int).filter(pred).len(),
            forall|j: int|
                0 <= j < r.len() ==> draft_is(
                    #[trigger] r[j],
                    kinds@.take(i as int).filter(pred)[j],
                    *req,
                    sources@,
                    now@,
                    today@,
                ),
        decreases kinds.len() - i,
    {
        proof {
            reveal(Seq::filter);
            assert(kinds@.take(i + 1).drop_last() =~= kinds@.take(i as int));
        }
        let kind = kinds[i];
        if kind == ArtifactKind::TemporalRollup && !emit {
        } else {
            let d = build_artifact(kind, req, sources, now, today);
            r.push(d);
        }
        i = i + 1;
    }
    assert(kinds@.take(kinds.len() as int) =~= kinds@);
    r
}

/// The identifiers of a list of drafts.
pub open spec fn draft_ids(drafts: Seq<ArtifactDraft>) -> Seq<Seq<char>> {
    drafts.map_values(|d: ArtifactDraft| d.artifact_id@)
}

/// What an enqueue decides: the artifacts to write, the finished job to record, and the
/// answer to the caller.
#[derive(Debug, Clone, PartialEq, Eq)]
pub struct EnqueuePlan {
    pub artifacts: Vec<ArtifactDraft>,
    pub job: ProjectionJob,
    pub result: ProjectionEnqueueResult,
}

/// The identifier of the job for an agent and an idempotency key.
pub open spec fn job_id_of(agent: Seq<char>, idempotency_key: Seq<char>) -> Seq<char> {
    stable_id_of("job"@, agent + seq![':'] + idempotency_key)
}

/// `p` is what an enqueue of `req` over `sources` decides at `now`: the artifacts of the
/// planned kinds, a succeeded job that produced them, and an accepted answer.
pub open spec fn plan_is(
    p: EnqueuePlan,
    req: ProjectionEnqueueRequestPayload,
    sources: Seq<SourceDocument>,
    now: Seq<char>,
    today: Seq<char>,
) -> bool {
    let kinds = planned_kinds(req.kind, emits_rollup(req.scope.granularity, sources));
    let job_id = job_id_of(req.scope.agent@, req.idempotency_key@);
    &&& p.artifacts.len() == kinds.len()
    &&& forall|i: int|
        0 <= i < p.artifacts.len() ==> draft_is(#[trigger] p.artifacts[i], kinds[i], req, sources, now, today)
    &&& p.job.job_id@ == job_id
    &&& p.job.agent@ == req.scope.agent@
    &&& p.job.kind == req.kind
    &&& p.job.status == ProjectionJobStatus::Succeeded
    &&& p.job.requested_at@ == now
    &&& p.job.started_at is None
    &&& p.job.finished_at matches Some(f) && f@ == now
    &&& p.job.retry_count == 0
    &&& p.job.retry_history@.len() == 0
    &&& p.job.last_error is None
    &&& p.job.watermark_before == req.source_watermark
    &&& p.job.watermark_after == Some(req.source_watermark)
    &&& !p.job.stale
    &&& p.job.stale_reason is None
    &&& p.job.idempotency_key@ == req.idempotency_key@
    &&& p.job.produced_artifact_ids.deep_view() == draft_ids(p.artifacts@)
    &&& p.result.job_id@ == job_id
    &&& p.result.status == ProjectionJobStatus::Succeeded
    &&& p.result.accepted
    &&& p.result.idempotency_key@ == req.idempotency_key@
    &&& p.result.existing_job_id is None
}

/// What an enqueue of `req` over the loaded `sources` decides, with `now` as the time of
/// the request and `today` as the default period of a rollup.
pub fn plan_enqueue(
    req: &ProjectionEnqueueRequestPayload,
    sources: &Vec<SourceDocument>,
    now: &str,
    today: &str,
) -> (p: EnqueuePlan)
    ensures
        plan_is(p, *req, sources@, now@, today@),
{
    let key = concat3(req.scope.agent.as_str(), ":", req.idempotency_key.as_str());
    proof {
        reveal_strlit(":");
        assert(":"@ =~= seq![':']);
    }
    let job_id = stable_id("job", key.as_str());
    let artifacts = build_artifacts(req, sources, now, today);
    let mut ids: Vec<String> = Vec::new();
    let mut i: usize = 0;
    while i < artifacts.len()
        invariant
            i <= artifacts.len(),
            ids.deep_view() == draft_ids(artifacts@.take(i as int)),
        decreases artifacts.len() - i,
    {
        let ghost prev = ids.deep_view();
        ids.push(artifacts[i].artifact_id.clone());
        assert(ids.deep_view() =~= prev.push(artifacts@[i as int].artifact_id@));
        assert(draft_ids(artifacts@.take(i + 1)) =~= draft_ids(artifacts@.take(i as int)).push(
            artifacts@[i as int].artifact_id@,
        ));
        i = i + 1;
    }
    assert(artifacts@.take(artifacts.len() as int) =~= artifacts@);
    let job = ProjectionJob {
        job_id: job_id.clone(),
        agent: req.scope.agent.clone(),
        kind: req.kind,
        status: ProjectionJobStatus::Succeeded,
        requested_at: copy_str(now),
        started_at: None,
        finished_at: Some(copy_str(now)),
        retry_count: 0,
        retry_history: Vec::new(),
        last_error: None,
        watermark_before: copy_watermark(&req.source_watermark),
        watermark_after: Some(copy_watermark(&req.source_watermark)),
        stale: false,
        stale_reason: None,
        idempotency_key: req.idempotency_key.clone(),
        produced_artifact_ids: ids,
    };
    let result = ProjectionEnqueueResult {
        job_id,
        status: ProjectionJobStatus::Succeeded,
        accepted: true,
        idempotency_key: req.idempotency_key.clone(),
        existing_job_id: None,
    };
    EnqueuePlan { artifacts, job, result }
}

/// Every artifact an enqueue plans is found again by its id, which the job records: the
/// id names the artifact's kind, so `artifact_location` gives the file the artifact is
/// written to (`artifact_path` of its kind and id). For a temporal rollup this needs a
/// granularity without `:`.
pub proof fn lemma_enqueued_artifacts_found(
    p: EnqueuePlan,
    req: ProjectionEnqueueRequestPayload,
    sources: Seq<SourceDocument>,
    now: Seq<char>,
    today: Seq<char>,
    i: int,
)
    requires
        plan_is(p, req, sources, now, today),
        0 <= i < p.artifacts.len(),
        req.scope.granularity matches Some(g) ==> colon_free(g@),
    ensures
        kind_of_id(p.artifacts[i].artifact_id@) == Some(p.artifacts[i].kind),
        p.job.produced_artifact_ids.deep_view()[i] == p.artifacts[i].artifact_id@,
{
    let kinds = planned_kinds(req.kind, emits_rollup(req.scope.granularity, sources));
    assert(draft_is(p.artifacts[i], kinds[i], req, sources, now, today));
    lemma_artifact_found_by_id(kinds[i], req.scope, sources);
}

/// Enqueueing is idempotent in its job: two requests of the same agent with the same
/// idempotency key are answered with the same job id, whatever their sources, kinds and
/// times.
pub proof fn lemma_job_id_per_key(
    p1: EnqueuePlan,
    req1: ProjectionEnqueueRequestPayload,
    sources1: Seq<SourceDocument>,
    now1: Seq<char>,
    today1: Seq<char>,
    p2: EnqueuePlan,
    req2: ProjectionEnqueueRequestPayload,
    sources2: Seq<SourceDocument>,
    now2: Seq<char>,
    today2: Seq<char>,
)
    requires
        plan_is(p1, req1, sources1, now1, today1),
        plan_is(p2, req2, sources2, now2, today2),
        req1.scope.agent@ == req2.scope.agent@,
        req1.idempotency_key@ == req2.idempotency_key@,
    ensures
        p1.result.job_id@ == p2.result.job_id@,
        p1.job.job_id@ == p2.job.job_id@,
{
}

/// The source at `path`, read as `read` (its contents, or what went wrong reading it),
/// loads: the path is safe and under a supported root, and it was read.
pub open spec fn source_loads(path: Seq<char>, read: Result<String, String>) -> bool {
    !unsafe_source_path(path) && supported_source_root(path) && read is Ok
}

/// The first `n` sources load.
pub open spec fn all_load(paths: Seq<String>, reads: Seq<Result<String, String>>, n: int) -> bool {
    forall|i: int| 0 <= i < n ==> source_loads(#[trigger] paths[i]@, reads[i])
}

/// `e` is the error of a source that does not load: the path's validation error, or,
/// for a path that passes, a not-found error naming the agent and saying what went wrong.
pub open spec fn load_error(e: PhronesisError, path: Seq<char>, read: Result<String, String>, agent: Seq<char>) -> bool {
    if unsafe_source_path(path) {
        e == PhronesisError::Validation(e->Validation_0) && e->Validation_0@ == "unsafe source path: "@ + path
    } else if !supported_source_root(path) {
        e == PhronesisError::Validation(e->Validation_0) && e->Validation_0@
            == "unsupported source path root: "@ + path
    } else {
        e == PhronesisError::NotFound(e->NotFound_0) && e->NotFound_0@ == "source for agent "@ + agent
            + " not found: "@ + read->Err_0@
    }
}

/// `docs` are the source documents of `paths` with contents `reads`, in order.
pub open spec fn docs_loaded(docs: Seq<SourceDocument>, paths: Seq<String>, reads: Seq<Result<String, String>>) -> bool {
    &&& docs.len() == paths.len()
    &&& forall|i: int|
        0 <= i < docs.len() ==> {
            &&& (#[trigger] docs[i]).path == paths[i]
            &&& reads[i] matches Ok(c) && docs[i].content == c
            &&& docs[i].excerpt@ == excerpt_of(docs[i].content@)
        }
}

/// Loads the sources of a request, in order, from what was read of each (`reads[i]` for
/// `paths[i]`; a read is only looked at once its path passes validation): the first
/// source that does not load gives the error, before any later one is looked at.
pub fn load_sources(agent: &str, paths: &Vec<String>, reads: &Vec<Result<String, String>>) -> (r: Result<
    Vec<SourceDocument>,
    PhronesisError,
>)
    requires
        reads.len() == paths.len(),
    ensures
        r is Ok <==> all_load(paths@, reads@, paths.len() as int),
        r matches Ok(d) ==> docs_loaded(d@, paths@, reads@),
        r matches Err(e) ==> exists|k: int|
            #![trigger paths@[k]]
            0 <= k < paths.len() && all_load(paths@, reads@, k) && !source_loads(paths@[k]@, reads@[k])
                && load_error(e, paths@[k]@, reads@[k], agent@),
{
    let mut docs: Vec<SourceDocument> = Vec::new();
    let mut i: usize = 0;
    while i < paths.len()
        invariant
            i <= paths.len(),
            reads.len() == paths.len(),
            all_load(paths@, reads@, i as int),
            docs_loaded(docs@, paths@.take(i as int), reads@.take(i as int)),
        decreases paths.len() - i,
    {
        match validate_source_path(paths[i].as_str()) {
            Err(e) => {
                assert(!source_loads(paths@[i as int]@, reads@[i as int]));
                assert(load_error(e, paths@[i as int]@, reads@[i as int], agent@));
                return Err(e);
            },
            Ok(()) => {},
        }
        match &reads[i] {
            Err(detail) => {
                let mut m = concat3("source for agent ", agent, " not found: ");
                push_str(&mut m, detail.as_str());
                let e = PhronesisError::NotFound(m);
                assert(load_error(e, paths@[i as int]@, reads@[i as int], agent@));
                return Err(e);
            },
            Ok(content) => {
                let d = source_document(paths[i].clone(), content.clone());
                let ghost prev = docs@;
                docs.push(d);
                assert(docs_loaded(docs@, paths@.take(i + 1), reads@.take(i + 1))) by {
                    assert forall|j: int| 0 <= j < docs.len() implies {
                        &&& (#[trigger] docs@[j]).path == paths@.take(i + 1)[j]
                        &&& reads@.take(i + 1)[j] matches Ok(c) && docs@[j].content == c
                        &&& docs@[j].excerpt@ == excerpt_of(docs@[j].content@)
                    } by {
                        if j < i {
                            assert(docs@[j] == prev[j]);
                            assert(paths@.take(i as int)[j] == paths@.take(i + 1)[j]);
                            assert(reads@.take(i as int)[j] == reads@.take(i + 1)[j]);
                        }
                    }
                }
            },
        }
        i = i + 1;
    }
    assert(paths@.take(paths.len() as int) =~= paths@);
    assert(reads@.take(reads.len() as int) =~= reads@);
    Ok(docs)
}

/// What an enqueue of `req` decides now, from what was read of its sources: the error of
/// the first source that does not load, before anything is planned (so nothing is
/// written); otherwise the plan over the loaded sources for the current time and date,
/// whichever they are.
pub fn enqueue(req: &ProjectionEnqueueRequestPayload, reads: &Vec<Result<String, String>>) -> (r: Result<
    EnqueuePlan,
    PhronesisError,
>)
    requires
        reads.len() == req.scope.source_paths.len(),
    ensures
        r is Ok <==> all_load(req.scope.source_paths@, reads@, reads.len() as int),
        r matches Err(e) ==> exists|k: int|
            #![trigger req.scope.source_paths@[k]]
            0 <= k < reads.len() && all_load(req.scope.source_paths@, reads@, k) && !source_loads(
                req.scope.source_paths@[k]@,
                reads@[k],
            ) && load_error(e, req.scope.source_paths@[k]@, reads@[k], req.scope.agent@),
        r matches Ok(p) ==> exists|docs: Seq<SourceDocument>, now: Seq<char>, today: Seq<char>|
            docs_loaded(docs, req.scope.source_paths@, reads@) && is_rfc3339_utc(now) && is_date_text(
                today,
            ) && plan_is(p, *req, docs, now, today),
{
    let sources = match load_sources(req.scope.agent.as_str(), &req.scope.source_paths, reads) {
        Ok(d) => d,
        Err(e) => {
            return Err(e);
        },
    };
    let now = now_rfc3339();
    let today = today_utc();
    Ok(plan_enqueue(req, &sources, now.as_str(), today.as_str()))
}

/// A job is listed for `agent` under the optional kind and status filters.
pub open spec fn job_selected(
    j: ProjectionJob,
    agent: Seq<char>,
    kind: Option<ProjectionKindFilter>,
    status: Option<ProjectionJobStatus>,
) -> bool {
    &&& j.agent@ == agent
    &&& kind matches Some(k) ==> j.kind == k
    &&& status matches Some(s) ==> j.status == s
}

/// The test `job_selected` as a predicate.
pub open spec fn job_filter(
    agent: Seq<char>,
    kind: Option<ProjectionKindFilter>,
    status: Option<ProjectionJobStatus>,
) -> spec_fn(ProjectionJob) -> bool {
    |j: ProjectionJob| job_selected(j, agent, kind, status)
}

/// Jobs are listed newest request first.
pub open spec fn job_key() -> spec_fn(ProjectionJob) -> Seq<char> {
    |j: ProjectionJob| j.requested_at@
}

/// Lists an agent's jobs, given all stored jobs in the order they were read: those of the
/// agent (and of the kind and status asked for), newest request first (ties keep their
/// order), then the page that skips `offset` and keeps `limit`. The total counts the whole
/// selection.
pub fn list_jobs(
    jobs: Vec<ProjectionJob>,
    agent: &str,
    kind: Option<ProjectionKindFilter>,
    status: Option<ProjectionJobStatus>,
    limit: usize,
    offset: usize,
) -> (r: ProjectionJobListResponse)
    ensures
        r.total_count == jobs@.filter(job_filter(agent@, kind, status)).len(),
        stable_sorted_desc(
            newest_first(jobs@.filter(job_filter(agent@, kind, status)), job_key()),
            jobs@.filter(job_filter(agent@, kind, status)),
            job_key(),
        ),
        r.jobs@ == page_of(
            newest_first(jobs@.filter(job_filter(agent@, kind, status)), job_key()),
            offset as nat,
            limit as nat,
        ),
        r.limit == limit,
        r.offset == offset,
{
    let ghost all = jobs@;
    let ghost pred = job_filter(agent@, kind, status);
    let mut selected: Vec<ProjectionJob> = Vec::new();
    let mut keys: Vec<Vec<char>> = Vec::new();
    for j in it: jobs
        invariant
            it.seq() == all,
            pred == job_filter(agent@, kind, status),
            selected@ == all.take(it.index() as int).filter(pred),
            keys.len() == selected.len(),
            forall|i: int| 0 <= i < keys.len() ==> (#[trigger] keys[i])@ == job_key()(selected@[i]),
    {
        proof {
            reveal(Seq::filter);
            assert(all.take(it.index() + 1).drop_last() =~= all.take(it.index() as int));
        }
        let agent_ok = str_eq(j.agent.as_str(), agent);
        let kind_ok = match kind {
            Some(k) => j.kind == k,
            None => true,
        };
        let status_ok = match status {
            Some(s) => j.status == s,
            None => true,
        };
        if agent_ok && kind_ok && status_ok {
            let k = chars_of(j.requested_at.as_str());
            selected.push(j);
            keys.push(k);
        }
    }
    assert(all.take(all.len() as int) =~= all);
    let total_count = selected.len();
    let sorted = sort_desc_by_key(selected, keys, Ghost(job_key()));
    let jobs = page(sorted, offset, limit);
    ProjectionJobListResponse { jobs, total_count, limit, offset }
}

/// Pages of job listings tile across separate reads of the job directory: when three
/// reads hold the same jobs (in any order) and the selected jobs' request times are
/// pairwise distinct, the page of `a + b` jobs at `offset` is the page of `a` jobs at
/// `offset` followed by the page of `b` jobs right after it, and all three count the same
/// total.
pub proof fn lemma_job_pages_tile(
    jobs1: Seq<ProjectionJob>,
    jobs2: Seq<ProjectionJob>,
    jobs3: Seq<ProjectionJob>,
    agent: Seq<char>,
    kind: Option<ProjectionKindFilter>,
    status: Option<ProjectionJobStatus>,
    offset: nat,
    a: nat,
    b: nat,
    r1: ProjectionJobListResponse,
    r2: ProjectionJobListResponse,
    r3: ProjectionJobListResponse,
)
    requires
        forall|x: ProjectionJob| jobs1.contains(x) <==> jobs2.contains(x),
        forall|x: ProjectionJob| jobs1.contains(x) <==> jobs3.contains(x),
        distinct_keys(jobs1.filter(job_filter(agent, kind, status)), job_key()),
        distinct_keys(jobs2.filter(job_filter(agent, kind, status)), job_key()),
        distinct_keys(jobs3.filter(job_filter(agent, kind, status)), job_key()),
        listed_jobs(r1, jobs1, agent, kind, status, offset, a + b),
        listed_jobs(r2, jobs2, agent, kind, status, offset, a),
        listed_jobs(r3, jobs3, agent, kind, status, offset + a, b),
    ensures
        r1.jobs@ == r2.jobs@ + r3.jobs@,
        r1.total_count == r2.total_count,
        r1.total_count == r3.total_count,
{
    let pred = job_filter(agent, kind, status);
    let s1 = jobs1.filter(pred);
    let s2 = jobs2.filter(pred);
    let s3 = jobs3.filter(pred);
    lemma_same_selection(jobs1, jobs2, pred);
    lemma_same_selection(jobs1, jobs3, pred);
    lemma_newest_first_same_items(s1, s2, job_key());
    lemma_newest_first_same_items(s1, s3, job_key());
    lemma_pages_tile(newest_first(s1, job_key()), offset, a, b);
    lemma_distinct_same_len(s1, s2);
    lemma_distinct_same_len(s1, s3);
}

/// `r` is what `list_jobs` answers for `jobs` with these filters and paging.
pub open spec fn listed_jobs(
    r: ProjectionJobListResponse,
    jobs: Seq<ProjectionJob>,
    agent: Seq<char>,
    kind: Option<ProjectionKindFilter>,
    status: Option<ProjectionJobStatus>,
    offset: nat,
    limit: nat,
) -> bool {
    let sel = jobs.filter(job_filter(agent, kind, status));
    &&& r.total_count == sel.len()
    &&& stable_sorted_desc(newest_first(sel, job_key()), sel, job_key())
    &&& r.jobs@ == page_of(newest_first(sel, job_key()), offset, limit)
}

/// Selections of the same items hold the same items.
proof fn lemma_same_selection(j1: Seq<ProjectionJob>, j2: Seq<ProjectionJob>, pred: spec_fn(ProjectionJob) -> bool)
    requires
        forall|x: ProjectionJob| j1.contains(x) <==> j2.contains(x),
    ensures
        forall|x: ProjectionJob| j1.filter(pred).contains(x) <==> j2.filter(pred).contains(x),
{
    assert forall|x: ProjectionJob| j1.filter(pred).contains(x) implies j2.filter(pred).contains(x) by {
        j1.lemma_filter_contains_rev(pred, x);
        let i = choose|i: int| 0 <= i < j1.filter(pred).len() && j1.filter(pred)[i] == x;
        j1.lemma_filter_pred(pred, i);
        let k = choose|k: int| 0 <= k < j2.len() && j2[k] == x;
        j2.lemma_filter_contains(pred, k);
    }
    assert forall|x: ProjectionJob| j2.filter(pred).contains(x) implies j1.filter(pred).contains(x) by {
        j2.lemma_filter_contains_rev(pred, x);
        let i = choose|i: int| 0 <= i < j2.filter(pred).len() && j2.filter(pred)[i] == x;
        j2.lemma_filter_pred(pred, i);
        let k = choose|k: int| 0 <= k < j1.len() && j1[k] == x;
        j1.lemma_filter_contains(pred, k);
    }
}

/// Two lists of the same jobs, each with pairwise distinct request times, are equally long.
proof fn lemma_distinct_same_len(s1: Seq<ProjectionJob>, s2: Seq<ProjectionJob>)
    requires
        forall|x: ProjectionJob| s1.contains(x) <==> s2.contains(x),
        distinct_keys(s1, job_key()),
        distinct_keys(s2, job_key()),
    ensures
        s1.len() == s2.len(),
{
    assert(s1.no_duplicates()) by {
        assert forall|i: int, j: int| 0 <= i < s1.len() && 0 <= j < s1.len() && i != j implies s1[i] != s1[j] by {
            if i < j {
                assert(job_key()(s1[i]) != job_key()(s1[j]));
            } else {
                assert(job_key()(s1[j]) != job_key()(s1[i]));
            }
        }
    }
    assert(s2.no_duplicates()) by {
        assert forall|i: int, j: int| 0 <= i < s2.len() && 0 <= j < s2.len() && i != j implies s2[i] != s2[j] by {
            if i < j {
                assert(job_key()(s2[i]) != job_key()(s2[j]));
            } else {
                assert(job_key()(s2[j]) != job_key()(s2[i]));
            }
        }
    }
    s1.unique_seq_to_set();
    s2.unique_seq_to_set();
    assert(s1.to_set() =~= s2.to_set());
}

/// What the projection logic reads of a stored artifact: the directory (kind) it was read
/// from, its kind, owner, status, creation time, key and watermark, the JSON text of its
/// body with the body's `granularity`, `period_start` and `period_end` strings, and its
/// claims and evidence.
#[derive(Debug, Clone, PartialEq, Eq)]
pub struct ArtifactRecord {
    pub dir_kind: ArtifactKind,
    pub kind: ArtifactKind,
    pub agent: String,
    pub status: ArtifactStatus,
    pub created_at: String,
    pub idempotency_key: String,
    pub source_watermark: SourceWatermark,
    pub body_text: String,
    pub granularity: Option<String>,
    pub period_start: Option<String>,
    pub period_end: Option<String>,
    pub claims: Vec<Claim>,
    pub evidence: Vec<EvidenceRef>,
}

/// An artifact is listed for `agent` under the optional kind (its directory), status and
/// granularity filters; an artifact whose body names no granularity passes any
/// granularity filter.
pub open spec fn record_selected(
    r: ArtifactRecord,
    agent: Seq<char>,
    kind: Option<ArtifactKind>,
    status: Option<ArtifactStatus>,
    granularity: Option<Seq<char>>,
) -> bool {
    &&& kind matches Some(k) ==> r.dir_kind == k
    &&& r.agent@ == agent
    &&& status matches Some(s) ==> r.status == s
    &&& granularity matches Some(g) ==> (r.granularity matches Some(rg) ==> rg@ == g)
}

/// The positions among the first `n` records of those listed, in order.
pub open spec fn selected_positions(
    recs: Seq<ArtifactRecord>,
    n: int,
    agent: Seq<char>,
    kind: Option<ArtifactKind>,
    status: Option<ArtifactStatus>,
    granularity: Option<Seq<char>>,
) -> Seq<usize>
    decreases n,
{
    if n <= 0 {
        Seq::empty()
    } else {
        let rest = selected_positions(recs, n - 1, agent, kind, status, granularity);
        if record_selected(recs[n - 1], agent, kind, status, granularity) {
            rest.push((n - 1) as usize)
        } else {
            rest
        }
    }
}

/// Positions of records are ordered newest creation first.
pub open spec fn record_key(recs: Seq<ArtifactRecord>) -> spec_fn(usize) -> Seq<char> {
    |i: usize| recs[i as int].created_at@
}

/// The positions of the listed records, newest first.
pub open spec fn listed_positions(
    recs: Seq<ArtifactRecord>,
    agent: Seq<char>,
    kind: Option<ArtifactKind>,
    status: Option<ArtifactStatus>,
    granularity: Option<Seq<char>>,
) -> Seq<usize> {
    newest_first(
        selected_positions(recs, recs.len() as int, agent, kind, status, granularity),
        record_key(recs),
    )
}

/// The positions among the first `n` records that are selected are those of the records
/// the filters select.
proof fn lemma_selected_positions(
    recs: Seq<ArtifactRecord>,
    n: int,
    agent: Seq<char>,
    kind: Option<ArtifactKind>,
    status: Option<ArtifactStatus>,
    granularity: Option<Seq<char>>,
)
    requires
        0 <= n <= recs.len(),
        recs.len() <= usize::MAX,
    ensures
        ({
            let sel = selected_positions(recs, n, agent, kind, status, granularity);
            &&& forall|j: int|
                #![trigger sel[j]]
                0 <= j < sel.len() ==> sel[j] < n && record_selected(
                    recs[sel[j] as int],
                    agent,
                    kind,
                    status,
                    granularity,
                )
            &&& forall|p: int|
                #![trigger recs[p]]
                0 <= p < n && record_selected(recs[p], agent, kind, status, granularity) ==> sel.contains(
                    p as usize,
                )
        }),
    decreases n,
{
    if n > 0 {
        lemma_selected_positions(recs, n - 1, agent, kind, status, granularity);
        let rest = selected_positions(recs, n - 1, agent, kind, status, granularity);
        let sel = selected_positions(recs, n, agent, kind, status, granularity);
        assert forall|p: int|
            #![trigger recs[p]]
            0 <= p < n && record_selected(recs[p], agent, kind, status, granularity) implies sel.contains(
                p as usize,
            ) by {
            if p < n - 1 {
                let w = choose|w: int| 0 <= w < rest.len() && rest[w] == p as usize;
                assert(sel[w] == rest[w]);
            } else {
                assert(sel[sel.len() - 1] == p as usize);
            }
        }
    }
}

/// A listing holds exactly the agent's artifacts that meet its filters: each listed
/// artifact is the agent's, in the kind directory and with the status asked for, and under
/// a granularity filter `g` it names `g` if its body names a granularity at all, so an
/// artifact whose body names another granularity is neither listed nor counted; and every
/// artifact that meets the filters is listed.
pub proof fn lemma_listed_artifacts_meet_filters(
    recs: Seq<ArtifactRecord>,
    agent: Seq<char>,
    kind: Option<ArtifactKind>,
    status: Option<ArtifactStatus>,
    granularity: Option<Seq<char>>,
)
    requires
        recs.len() <= usize::MAX,
    ensures
        ({
            let l = listed_positions(recs, agent, kind, status, granularity);
            &&& forall|j: int|
                #![trigger l[j]]
                0 <= j < l.len() ==> {
                    &&& (l[j] as int) < recs.len()
                    &&& recs[l[j] as int].agent@ == agent
                    &&& (kind matches Some(k) ==> recs[l[j] as int].dir_kind == k)
                    &&& (status matches Some(st) ==> recs[l[j] as int].status == st)
                    &&& (granularity matches Some(g) ==> (recs[l[j] as int].granularity matches Some(rg)
                        ==> rg@ == g))
                }
            &&& forall|p: int|
                #![trigger recs[p]]
                0 <= p < recs.len() && recs[p].agent@ == agent && (kind matches Some(k) ==> recs[p].dir_kind == k)
                    && (status matches Some(st) ==> recs[p].status == st) && (granularity matches Some(g) ==> (
                recs[p].granularity matches Some(rg) ==> rg@ == g)) ==> l.contains(p as usize)
        }),
{
    let sel = selected_positions(recs, recs.len() as int, agent, kind, status, granularity);
    let key = record_key(recs);
    let l = listed_positions(recs, agent, kind, status, granularity);
    lemma_selected_positions(recs, recs.len() as int, agent, kind, status, granularity);
    crate::listing::lemma_newest_first_is_stable(sel, key);
    assert forall|j: int| #![trigger l[j]] 0 <= j < l.len() implies (l[j] as int) < recs.len()
        && record_selected(recs[l[j] as int], agent, kind, status, granularity) by {
        crate::listing::lemma_member_with_key(l, sel, key, j);
        let i = choose|i: int| 0 <= i < sel.len() && sel[i] == l[j];
        assert(sel[i] == l[j]);
    }
    assert forall|p: int|
        #![trigger recs[p]]
        0 <= p < recs.len() && record_selected(recs[p], agent, kind, status, granularity) implies l.contains(
            p as usize,
        ) by {
        let i = choose|i: int| 0 <= i < sel.len() && sel[i] == p as usize;
        assert(sel[i] == p as usize);
        assert forall|k: Seq<char>| #[trigger] crate::listing::with_key(sel, key, k)
            == crate::listing::with_key(l, key, k) by {
            assert(crate::listing::with_key(l, key, k) == crate::listing::with_key(sel, key, k));
        }
        crate::listing::lemma_member_with_key(sel, l, key, i);
        let w = choose|w: int| 0 <= w < l.len() && l[w] == sel[i];
        assert(l[w] == p as usize);
    }
}

/// A page of listed artifacts: positions into the records, the size of the whole
/// listing, and the paging asked for.
#[derive(Debug, Clone, PartialEq, Eq)]
pub struct ArtifactListing {
    pub positions: Vec<usize>,
    pub total_count: usize,
    pub limit: usize,
    pub offset: usize,
}

/// The view of an optional string filter.
pub open spec fn opt_str(o: Option<&str>) -> Option<Seq<char>> {
    match o {
        Some(s) => Some(s@),
        None => None,
    }
}

/// Lists an agent's artifacts, given the records read from the artifact directories in
/// kind order (wisdom, decision, temporal rollup, report): those of the agent (in the kind
/// directory, status and granularity asked for), newest first (ties keep their order), then
/// the page that skips `offset` and keeps `limit`.
pub fn list_artifacts(
    records: &Vec<ArtifactRecord>,
    agent: &str,
    kind: Option<ArtifactKind>,
    status: Option<ArtifactStatus>,
    granularity: Option<&str>,
    limit: usize,
    offset: usize,
) -> (r: ArtifactListing)
    ensures
        r.total_count == listed_positions(records@, agent@, kind, status, opt_str(granularity)).len(),
        r.positions@ == page_of(
            listed_positions(records@, agent@, kind, status, opt_str(granularity)),
            offset as nat,
            limit as nat,
        ),
        r.limit == limit,
        r.offset == offset,
        forall|i: int| 0 <= i < r.positions.len() ==> r.positions[i] < records.len(),
{
    let ghost recs = records@;
    let ghost g = opt_str(granularity);
    let mut selected: Vec<usize> = Vec::new();
    let mut keys: Vec<Vec<char>> = Vec::new();
    let mut i: usize = 0;
    while i < records.len()
        invariant
            i <= records.len(),
            recs == records@,
            g == opt_str(granularity),
            selected@ == selected_positions(recs, i as int, agent@, kind, status, g),
            keys.len() == selected.len(),
            forall|j: int| 0 <= j < selected.len() ==> selected[j] < i,
            forall|j: int| 0 <= j < keys.len() ==> (#[trigger] keys[j])@ == record_key(recs)(selected@[j]),
        decreases records.len() - i,
    {
        let rec = &records[i];
        let kind_ok = match kind {
            Some(k) => rec.dir_kind == k,
            None => true,
        };
        let status_ok = match status {
            Some(s) => rec.status == s,
            None => true,
        };
        let gran_ok = match granularity {
            None => true,
            Some(gv) => match &rec.granularity {
                None => true,
                Some(rg) => str_eq(rg.as_str(), gv),
            },
        };
        if kind_ok && str_eq(rec.agent.as_str(), agent) && status_ok && gran_ok {
            selected.push(i);
            keys.push(chars_of(rec.created_at.as_str()));
        }
        i = i + 1;
    }
    let total_count = selected.len();
    let ghost sel = selected@;
    let sorted = sort_desc_by_key(selected, keys, Ghost(record_key(recs)));
    proof {
        assert forall|j: int| 0 <= j < sorted.len() implies sorted[j] < records.len() by {
            let x = sorted@[j];
            let k = record_key(recs)(x);
            crate::listing::lemma_member_with_key(sorted@, sel, record_key(recs), j);
        }
    }
    let positions = page(sorted, offset, limit);
    ArtifactListing { positions, total_count, limit, offset }
}


/// The search terms of the words `words`: each trimmed of everything but ASCII letters and
/// digits at its ends and lowercased, empty ones dropped.
pub open spec fn terms_from(words: Seq<Seq<char>>) -> Seq<Seq<char>>
    decreases words.len(),
{
    if words.len() == 0 {
        Seq::empty()
    } else {
        let rest = terms_from(words.drop_last());
        let t = lowercase_of(trim_non_alnum(words.last()));
        if t.len() > 0 {
            rest.push(t)
        } else {
            rest
        }
    }
}

/// The search terms of a query.
pub open spec fn normalized_terms_of(query: Seq<char>) -> Seq<Seq<char>> {
    terms_from(split_ws(query))
}

/// The search terms of a query.
pub fn normalized_terms(query: &str) -> (r: Vec<String>)
    ensures
        r.deep_view() == normalized_terms_of(query@),
{
    let words = split_ws_str(query);
    let ghost wv = words.deep_view();
    let mut r: Vec<String> = Vec::new();
    let mut i: usize = 0;
    while i < words.len()
        invariant
            i <= words.len(),
            wv == words.deep_view(),
            wv == split_ws(query@),
            r.deep_view() == terms_from(wv.take(i as int)),
        decreases words.len() - i,
    {
        proof {
            assert(wv.take(i + 1).drop_last() =~= wv.take(i as int));
        }
        let trimmed = trim_non_alnum_str(words[i].as_str());
        let t = to_lowercase(trimmed.as_str());
        assert(is_ascii_text(trimmed@) ==> t@ =~= ascii_lowercase(trimmed@));
        if !t.as_str().is_empty() {
            let ghost prev = r.deep_view();
            r.push(t);
            assert(r.deep_view() =~= prev.push(t@));
        }
        i = i + 1;
    }
    assert(wv.take(words.len() as int) =~= wv);
    r
}

/// Search terms carry no capital letters: every term of an ASCII query is its word, trimmed,
/// with capitals lowercased, so the query `Deployment` searches for `deployment`.
pub proof fn lemma_query_terms_have_no_capitals(query: Seq<char>)
    requires
        is_ascii_text(query),
    ensures
        forall|t: int, i: int|
            0 <= t < normalized_terms_of(query).len() && 0 <= i < normalized_terms_of(query)[t].len()
                ==> !('A' <= #[trigger] normalized_terms_of(query)[t][i] <= 'Z'),
{
    crate::text::lemma_words_of_ascii(query);
    lemma_terms_have_no_capitals(split_ws(query));
}

proof fn lemma_terms_have_no_capitals(words: Seq<Seq<char>>)
    requires
        forall|w: int| 0 <= w < words.len() ==> is_ascii_text(#[trigger] words[w]),
    ensures
        forall|t: int, i: int|
            0 <= t < terms_from(words).len() && 0 <= i < terms_from(words)[t].len()
                ==> !('A' <= #[trigger] terms_from(words)[t][i] <= 'Z'),
    decreases words.len(),
{
    if words.len() > 0 {
        let d = words.drop_last();
        assert forall|w: int| 0 <= w < d.len() implies is_ascii_text(#[trigger] d[w]) by {
            assert(d[w] == words[w]);
        }
        lemma_terms_have_no_capitals(d);
        let w = trim_non_alnum(words.last());
        assert(is_ascii_text(words[words.len() - 1]));
        crate::text::lemma_trim_keeps_ascii(words.last());
        let rest = terms_from(d);
        let all = terms_from(words);
        assert forall|t: int, i: int|
            0 <= t < all.len() && 0 <= i < all[t].len() implies !('A' <= #[trigger] all[t][i] <= 'Z') by {
            if t < rest.len() {
                assert(all[t] == rest[t]);
            } else {
                assert(all[t] == ascii_lowercase(w));
                assert(all[t][i] == ascii_lower(w[i]));
            }
        }
    }
}

/// The texts of a list of claims.
pub open spec fn claim_texts(cs: Seq<Claim>) -> Seq<Seq<char>> {
    cs.map_values(|c: Claim| c.text@)
}

/// The excerpts of a list of evidence.
pub open spec fn evidence_excerpts(es: Seq<EvidenceRef>) -> Seq<Seq<char>> {
    es.map_values(|e: EvidenceRef| e.excerpt@)
}

/// The paths of a list of evidence.
pub open spec fn evidence_paths(es: Seq<EvidenceRef>) -> Seq<Seq<char>> {
    es.map_values(|e: EvidenceRef| e.path@)
}

/// The text of an artifact that a search looks in: its body's JSON text, its claims' texts
/// and its evidence excerpts, separated by spaces.
pub open spec fn searched_text(r: ArtifactRecord) -> Seq<char> {
    r.body_text@ + seq![' '] + join(claim_texts(r.claims@), seq![' ']) + seq![' '] + join(
        evidence_excerpts(r.evidence@),
        seq![' '],
    )
}

/// The searched text lowercased.
pub open spec fn search_text(r: ArtifactRecord) -> Seq<char> {
    lowercase_of(searched_text(r))
}

/// Every term occurs in the artifact's search text.
pub open spec fn matches_terms(r: ArtifactRecord, terms: Seq<Seq<char>>) -> bool {
    forall|t: int| 0 <= t < terms.len() ==> contains(search_text(r), #[trigger] terms[t])
}

/// Search ignores letter case. An artifact whose searched text (body, claim texts and
/// evidence excerpts) is ASCII matches a term exactly when the term occurs in that text
/// with its capitals lowercased, so a text holding `Deployment` matches the term
/// `deployment`; and two such artifacts whose texts differ only in case match the same
/// terms.
pub proof fn lemma_search_ignores_case(r: ArtifactRecord, other: ArtifactRecord, term: Seq<char>, terms: Seq<Seq<char>>)
    requires
        is_ascii_text(searched_text(r)),
    ensures
        matches_terms(r, seq![term]) <==> exists|i: int|
            0 <= i && i + term.len() <= searched_text(r).len() && #[trigger] ascii_lowercase(
                searched_text(r).subrange(i, i + term.len()),
            ) == term,
        is_ascii_text(searched_text(other)) && ascii_lowercase(searched_text(other)) == ascii_lowercase(
            searched_text(r),
        ) ==> (matches_terms(other, terms) <==> matches_terms(r, terms)),
{
    let raw = searched_text(r);
    let low = ascii_lowercase(raw);
    let n = term.len();
    assert(search_text(r) == low);
    assert forall|i: int| 0 <= i && i + n <= raw.len() implies #[trigger] ascii_lowercase(raw.subrange(i, i + n))
        == low.subrange(i, i + n) by {
        assert(ascii_lowercase(raw.subrange(i, i + n)) =~= low.subrange(i, i + n));
    }
    assert(seq![term][0] == term);
    if matches_terms(r, seq![term]) {
        assert(contains(low, term));
        let i = choose|i: int| #[trigger] crate::text::matches_at(low, term, i);
        assert(ascii_lowercase(raw.subrange(i, i + n)) == term);
    }
    if exists|i: int| 0 <= i && i + n <= raw.len() && #[trigger] ascii_lowercase(raw.subrange(i, i + n)) == term {
        let i = choose|i: int| 0 <= i && i + n <= raw.len() && #[trigger] ascii_lowercase(raw.subrange(i, i + n)) == term;
        assert(crate::text::matches_at(low, term, i));
        assert forall|t: int| 0 <= t < 1 implies contains(search_text(r), #[trigger] seq![term][t]) by {
            assert(seq![term][t] == term);
        }
    }
}

/// A search asks for every term: an artifact matches a list of terms exactly when it
/// matches each of the terms alone.
pub proof fn lemma_search_needs_every_term(r: ArtifactRecord, terms: Seq<Seq<char>>)
    ensures
        matches_terms(r, terms) <==> forall|t: int|
            0 <= t < terms.len() ==> matches_terms(r, seq![#[trigger] terms[t]]),
{
    assert forall|t: int| 0 <= t < terms.len() implies (matches_terms(r, seq![#[trigger] terms[t]])
        <==> contains(search_text(r), terms[t])) by {
        assert(seq![terms[t]][0] == terms[t]);
    }
}

/// The positions whose records match all terms.
pub open spec fn term_filter(recs: Seq<ArtifactRecord>, terms: Seq<Seq<char>>) -> spec_fn(usize) -> bool {
    |i: usize| matches_terms(recs[i as int], terms)
}

/// The number of results a search returns at most: the requested limit (20 by default),
/// at least one.
pub open spec fn search_limit(limit: Option<usize>) -> nat {
    match limit {
        Some(l) => if l >= 1 { l as nat } else { 1 },
        None => 20,
    }
}

/// The hits of a search: positions into the records, and how many matched in all.
#[derive(Debug, Clone, PartialEq, Eq)]
pub struct SearchHits {
    pub positions: Vec<usize>,
    pub total_count: usize,
}

/// The search text of a record.
fn record_search_text(rec: &ArtifactRecord) -> (r: String)
    ensures
        r@ == search_text(*rec),
{
    let mut claims: Vec<String> = Vec::new();
    let mut i: usize = 0;
    while i < rec.claims.len()
        invariant
            i <= rec.claims.len(),
            claims.deep_view() == claim_texts(rec.claims@.take(i as int)),
        decreases rec.claims.len() - i,
    {
        let ghost prev = claims.deep_view();
        claims.push(rec.claims[i].text.clone());
        assert(claims.deep_view() =~= prev.push(rec.claims@[i as int].text@));
        assert(claim_texts(rec.claims@.take(i + 1)) =~= claim_texts(rec.claims@.take(i as int)).push(
            rec.claims@[i as int].text@,
        ));
        i = i + 1;
    }
    assert(rec.claims@.take(rec.claims.len() as int) =~= rec.claims@);
    let mut excerpts: Vec<String> = Vec::new();
    let mut j: usize = 0;
    while j < rec.evidence.len()
        invariant
            j <= rec.evidence.len(),
            excerpts.deep_view() == evidence_excerpts(rec.evidence@.take(j as int)),
        decreases rec.evidence.len() - j,
    {
        let ghost prev = excerpts.deep_view();
        excerpts.push(rec.evidence[j].excerpt.clone());
        assert(excerpts.deep_view() =~= prev.push(rec.evidence@[j as int].excerpt@));
        assert(evidence_excerpts(rec.evidence@.take(j + 1)) =~= evidence_excerpts(
            rec.evidence@.take(j as int),
        ).push(rec.evidence@[j as int].excerpt@));
        j = j + 1;
    }
    assert(rec.evidence@.take(rec.evidence.len() as int) =~= rec.evidence@);
    proof {
        reveal_strlit(" ");
        assert(" "@ =~= seq![' ']);
    }
    let mut text = copy_str(rec.body_text.as_str());
    push_str(&mut text, " ");
    let cj = join_strs(&claims, " ");
    push_str(&mut text, cj.as_str());
    push_str(&mut text, " ");
    let ej = join_strs(&excerpts, " ");
    push_str(&mut text, ej.as_str());
    assert(text@ =~= searched_text(*rec));
    let lowered = to_lowercase(text.as_str());
    assert(is_ascii_text(text@) ==> lowered@ =~= ascii_lowercase(text@));
    lowered
}

/// Searches an agent's artifacts (of `kind`, if given) for the terms of `q`: the positions
/// of the records, newest first, whose search text holds every term, cut to the limit; and
/// how many matched in all.
pub fn search_artifacts(records: &Vec<ArtifactRecord>, req: &ProjectionSearchArtifactsRequest) -> (r: SearchHits)
    ensures
        ({
            let hits = listed_positions(records@, req.agent@, req.kind, None, None).filter(
                term_filter(records@, normalized_terms_of(req.q@)),
            );
            &&& r.total_count == hits.len()
            &&& r.positions@ == if hits.len() > search_limit(req.limit) {
                hits.take(search_limit(req.limit) as int)
            } else {
                hits
            }
        }),
{
    let limit: usize = match req.limit {
        Some(l) => if l >= 1 {
            l
        } else {
            1
        },
        None => 20,
    };
    let listing = list_artifacts(records, req.agent.as_str(), req.kind, None, None, usize::MAX, 0);
    let ghost order = listed_positions(records@, req.agent@, req.kind, None, None);
    assert(listing.positions@ =~= order);
    let terms = normalized_terms(req.q.as_str());
    let ghost tv = terms.deep_view();
    let ghost pred = term_filter(records@, tv);
    let mut hits: Vec<usize> = Vec::new();
    let mut i: usize = 0;
    while i < listing.positions.len()
        invariant
            i <= listing.positions.len(),
            listing.positions@ == order,
            forall|j: int| 0 <= j < listing.positions.len() ==> listing.positions[j] < records.len(),
            tv == terms.deep_view(),
            pred == term_filter(records@, tv),
            hits@ == order.take(i as int).filter(pred),
        decreases listing.positions.len() - i,
    {
        proof {
            reveal(Seq::filter);
            assert(order.take(i + 1).drop_last() =~= order.take(i as int));
        }
        let p = listing.positions[i];
        let text = record_search_text(&records[p]);
        let mut all = true;
        let mut t: usize = 0;
        while t < terms.len()
            invariant
                t <= terms.len(),
                tv == terms.deep_view(),
                all == forall|u: int| 0 <= u < t ==> contains(text@, #[trigger] tv[u]),
            decreases terms.len() - t,
        {
            let found = str_contains(text.as_str(), terms[t].as_str());
            assert(tv[t as int] == terms@[t as int]@);
            all = all && found;
            t = t + 1;
            assert(all == forall|u: int| 0 <= u < t ==> contains(text@, #[trigger] tv[u])) by {
                if all {
                    assert forall|u: int| 0 <= u < t implies contains(text@, #[trigger] tv[u]) by {
                        if u < t - 1 {
                        }
                    }
                }
            }
        }
        if all {
            hits.push(p);
        }
        i = i + 1;
    }
    assert(order.take(order.len() as int) =~= order);
    let total_count = hits.len();
    let mut positions = hits;
    if positions.len() > limit {
        positions.truncate(limit);
    }
    SearchHits { positions, total_count }
}

/// The enqueue request that re-projects the stale artifact `rec` for `agent`: same kind,
/// sources (the paths of its evidence), period, key and watermark.
pub open spec fn refresh_request_is(q: ProjectionEnqueueRequestPayload, rec: ArtifactRecord, agent: Seq<char>) -> bool {
    &&& q.kind == filter_of_kind(rec.kind)
    &&& q.scope.agent@ == agent
    &&& paths_view(q.scope.source_paths@) == evidence_paths(rec.evidence@)
    &&& q.scope.granularity == rec.granularity
    &&& q.scope.period_start == rec.period_start
    &&& q.scope.period_end == rec.period_end
    &&& q.idempotency_key@ == rec.idempotency_key@
    &&& q.source_watermark == rec.source_watermark
}

/// The number of stale artifacts a refresh handles at most: the requested limit (100 by
/// default), at least one.
pub open spec fn refresh_limit(limit: Option<usize>) -> nat {
    match limit {
        Some(l) => if l >= 1 { l as nat } else { 1 },
        None => 100,
    }
}

/// Refreshing a stale artifact other than a temporal rollup rewrites the same artifact:
/// when the stale record `rec` stands for the artifact `d` that an enqueue of `req0`
/// planned from its loaded sources, the enqueue of the refresh request `q` (once its
/// sources load) plans exactly one artifact, with `d`'s id and kind, active and fresh,
/// with the record's key and watermark.
pub proof fn lemma_refresh_rewrites_same_artifact(
    rec: ArtifactRecord,
    agent: Seq<char>,
    q: ProjectionEnqueueRequestPayload,
    d: ArtifactDraft,
    req0: ProjectionEnqueueRequestPayload,
    docs0: Seq<SourceDocument>,
    reads0: Seq<Result<String, String>>,
    now0: Seq<char>,
    today0: Seq<char>,
    p: EnqueuePlan,
    docs: Seq<SourceDocument>,
    reads: Seq<Result<String, String>>,
    now: Seq<char>,
    today: Seq<char>,
)
    requires
        refresh_request_is(q, rec, agent),
        rec.kind != ArtifactKind::TemporalRollup,
        rec.evidence@ == d.evidence@,
        draft_is(d, rec.kind, req0, docs0, now0, today0),
        docs_loaded(docs0, req0.scope.source_paths@, reads0),
        req0.scope.agent@ == agent,
        plan_is(p, q, docs, now, today),
        docs_loaded(docs, q.scope.source_paths@, reads),
    ensures
        p.artifacts.len() == 1,
        p.artifacts[0].artifact_id@ == d.artifact_id@,
        p.artifacts[0].kind == rec.kind,
        p.artifacts[0].status == ArtifactStatus::Active,
        p.artifacts[0].freshness == Freshness::Fresh,
        p.artifacts[0].idempotency_key@ == rec.idempotency_key@,
        p.artifacts[0].source_watermark == rec.source_watermark,
{
    let k = rec.kind;
    let emit = emits_rollup(q.scope.granularity, docs);
    let pred = |x: ArtifactKind| x != ArtifactKind::TemporalRollup || emit;
    assert(kinds_requested(filter_of_kind(k)) =~= seq![k]);
    reveal(Seq::filter);
    assert(seq![k].drop_last() =~= Seq::<ArtifactKind>::empty());
    assert(seq![k].filter(pred) =~= seq![k]);
    assert(planned_kinds(q.kind, emit) =~= seq![k]);
    let a = p.artifacts[0];
    assert(draft_is(a, k, q, docs, now, today));
    let qp = q.scope.source_paths@;
    let ev = d.evidence@;
    assert(paths_view(qp) == evidence_paths(rec.evidence@));
    assert(paths_view(qp).len() == qp.len());
    assert(evidence_paths(ev).len() == ev.len());
    assert(qp.len() == ev.len());
    assert(ev.len() == docs0.len());
    if qp.len() > 0 {
        assert(paths_view(qp)[0] == qp[0]@);
        assert(evidence_paths(ev)[0] == ev[0].path@);
        assert(evidence_is(ev[0], 0, req0.scope.agent@, docs0[0], now0));
        assert(docs0[0].path == req0.scope.source_paths@[0]);
    }
}

/// A copy of an optional string.
fn copy_opt(o: &Option<String>) -> (r: Option<String>)
    ensures
        r == *o,
{
    match o {
        Some(s) => Some(s.clone()),
        None => None,
    }
}

/// Plans a refresh of an agent's stale artifacts (of the kind asked for): the newest
/// stale ones, up to the limit, each re-enqueued with its own sources, period, key and
/// watermark. Each returned request is then enqueued.
pub fn refresh_stale(records: &Vec<ArtifactRecord>, req: &ProjectionRefreshStaleRequest) -> (r: Vec<
    ProjectionEnqueueRequestPayload,
>)
    ensures
        ({
            let stale = page_of(
                listed_positions(
                    records@,
                    req.agent@,
                    artifact_of_filter(req.kind),
                    Some(ArtifactStatus::Stale),
                    None,
                ),
                0,
                refresh_limit(req.limit),
            );
            &&& r.len() == stale.len()
            &&& forall|i: int|
                0 <= i < r.len() ==> refresh_request_is(
                    #[trigger] r[i],
                    records@[stale[i] as int],
                    req.agent@,
                )
        }),
{
    let limit: usize = match req.limit {
        Some(l) => if l >= 1 {
            l
        } else {
            1
        },
        None => 100,
    };
    let listing = list_artifacts(
        records,
        req.agent.as_str(),
        kind_filter_to_artifact(req.kind),
        Some(ArtifactStatus::Stale),
        None,
        limit,
        0,
    );
    let mut out: Vec<ProjectionEnqueueRequestPayload> = Vec::new();
    let mut i: usize = 0;
    while i < listing.positions.len()
        invariant
            i <= listing.positions.len(),
            forall|j: int| 0 <= j < listing.positions.len() ==> listing.positions[j] < records.len(),
            out.len() == i,
            forall|j: int|
                0 <= j < i ==> refresh_request_is(
                    #[trigger] out[j],
                    records@[listing.positions[j] as int],
                    req.agent@,
                ),
        decreases listing.positions.len() - i,
    {
        let rec = &records[listing.positions[i]];
        let mut paths: Vec<String> = Vec::new();
        let mut k: usize = 0;
        while k < rec.evidence.len()
            invariant
                k <= rec.evidence.len(),
                paths_view(paths@) == evidence_paths(rec.evidence@.take(k as int)),
            decreases rec.evidence.len() - k,
        {
            let ghost prev = paths@;
            paths.push(rec.evidence[k].path.clone());
            assert(paths_view(paths@) =~= paths_view(prev).push(rec.evidence@[k as int].path@));
            assert(evidence_paths(rec.evidence@.take(k + 1)) =~= evidence_paths(
                rec.evidence@.take(k as int),
            ).push(rec.evidence@[k as int].path@));
            k = k + 1;
        }
        assert(rec.evidence@.take(rec.evidence.len() as int) =~= rec.evidence@);
        let q = ProjectionEnqueueRequestPayload {
            kind: ProjectionKindFilter::from(rec.kind),
            scope: ProjectionScope {
                agent: req.agent.clone(),
                source_paths: paths,
                granularity: copy_opt(&rec.granularity),
                period_start: copy_opt(&rec.period_start),
                period_end: copy_opt(&rec.period_end),
            },
            idempotency_key: rec.idempotency_key.clone(),
            source_watermark: copy_watermark(&rec.source_watermark),
        };
        out.push(q);
        i = i + 1;
    }
    out
}

} // verus!
