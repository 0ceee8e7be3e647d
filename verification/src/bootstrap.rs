//! The initial shape of a memory: the six pillars and the skills guide.
use vstd::prelude::*;

use crate::fs::skills::appendable_marker;
use crate::text::{concat3, copy_str, matches_at};

verus! {

/// The names of the six pillars, in order.
pub open spec fn pillar_names() -> Seq<Seq<char>> {
    seq!["self"@, "perception"@, "cognition"@, "praxis"@, "evolution"@, "reflection"@]
}

/// The seed description of each pillar, in the order of `pillar_names`.
pub open spec fn pillar_descriptions() -> Seq<Seq<char>> {
    seq![
        "에이전트 자기 유지와 정체성 관리"@,
        "외부 상황 인지와 데이터 해석"@,
        "내부 추론과 지식 처리 프로세스"@,
        "외부 세계에 영향을 미치는 실천 행동"@,
        "새로운 능력 획득과 구조 확장"@,
        "기존 지식 재구성과 자기 성찰"@,
    ]
}

/// The six pillars and their seed descriptions, in order.
pub fn pillar_seeds() -> (r: Vec<(String, String)>)
    ensures
        r.len() == 6,
        forall|i: int| 0 <= i < 6 ==> (#[trigger] r[i]).0@ == pillar_names()[i],
        forall|i: int| 0 <= i < 6 ==> (#[trigger] r[i]).1@ == pillar_descriptions()[i],
{
    let mut r: Vec<(String, String)> = Vec::new();
    r.push((copy_str("self"), copy_str("에이전트 자기 유지와 정체성 관리")));
    r.push((copy_str("perception"), copy_str("외부 상황 인지와 데이터 해석")));
    r.push((copy_str("cognition"), copy_str("내부 추론과 지식 처리 프로세스")));
    r.push((copy_str("praxis"), copy_str("외부 세계에 영향을 미치는 실천 행동")));
    r.push((copy_str("evolution"), copy_str("새로운 능력 획득과 구조 확장")));
    r.push((copy_str("reflection"), copy_str("기존 지식 재구성과 자기 성찰")));
    r
}

/// The part of the skills guide before the appendable-section marker.
pub open spec fn skills_seed_head() -> Seq<char> {
    SEED_HEAD@
}

/// The part of the skills guide after the appendable-section marker.
pub open spec fn skills_seed_tail() -> Seq<char> {
    SEED_TAIL@
}

/// The seed section of the skills guide.
pub const SEED_HEAD: &'static str = r#"# Phronesis Skills Guide

이 문서는 Phronesis 에이전틱 메모리 시스템의 사용 가이드입니다.

## 6-Pillar 분류 체계

| Pillar | 용도 | 기록 대상 |
|--------|------|----------|
| `/self` | 자기 유지, 정체성 | 시스템 상태, 페르소나, 보안 관련 행동 |
| `/perception` | 상황 인지 | 사용자 의도 분석, 환경 모니터링 행동 |
| `/cognition` | 내부 추론 | 논리 연산, 시뮬레이션, 지식 인출 행동 |
| `/praxis` | 외부 실천 | 도구 실행, 대화, 콘텐츠 생성 행동 |
| `/evolution` | 능력 확장 | 새로운 행동 생성, 폴더 구조 확장 |
| `/reflection` | 성찰 | 파일 재배치/재명명, 피드백 기록, 경고 리뷰 |

## 네이밍 규칙

- **폴더**: 소문자_언더바, 명사 중심 맥락 (예: `communication/formal_email`)
- **파일**: `동사_목적어_방식.jsonl` (예: `send_apology_with_alternative.jsonl`)

## 탐색 패턴

1. `embed_search`로 상황 인식 — "나는 지금 어떤 맥락에 있는가"
2. `grep_search`로 행동 선택 — "무엇을 해야 하는가"
3. 기존 행동이 없으면 `suggest_location` → `write_action`으로 새 행동 기록

## 서브에이전트 패턴 (추천)

메모리 탐색은 메인 에이전트의 컨텍스트를 오염시킬 수 있습니다.
서브에이전트를 포크하여 탐색을 수행하고, 클린 결과만 메인 에이전트에 반환하는 것을 권장합니다.

## 성찰 트리거

같은 행동을 세션 중 3번 이상 반복하고 있다면, 성찰을 수행하세요:
1. `get_warnings`로 경고 로그를 확인
2. 반복 패턴을 분석
3. 필요시 `move_action`/`rename_action`으로 구조 개선

"#;

/// The end of the skills guide, after the marker.
pub const SEED_TAIL: &'static str = r#"
<!-- 아래에 에이전트가 경험을 통해 학습한 내용을 추가합니다 -->
"#;

/// The skills guide a new memory starts with: the seed section, the appendable-section
/// marker and an invitation to append below it.
pub fn skills_seed() -> (r: String)
    ensures
        r@ == skills_seed_head() + appendable_marker() + skills_seed_tail(),
{
    concat3(SEED_HEAD, "<!-- AGENT APPENDABLE SECTION -->", SEED_TAIL)
}

/// The seeded guide holds the appendable-section marker, so the agent can always append
/// to a freshly bootstrapped memory.
pub proof fn lemma_seed_accepts_appends()
    ensures
        crate::text::contains(
            skills_seed_head() + appendable_marker() + skills_seed_tail(),
            appendable_marker(),
        ),
{
    let s = skills_seed_head() + appendable_marker() + skills_seed_tail();
    let k = skills_seed_head().len() as int;
    assert(s.subrange(k, k + appendable_marker().len()) =~= appendable_marker());
    assert(matches_at(s, appendable_marker(), k));
}

} // verus!
