//! Grep over action files: which files and lines match a pattern.
use vstd::prelude::*;

use crate::error::PhronesisError;
use crate::search::pattern::{regex_match_each, spec_regex_compiles, spec_regex_is_match};
use crate::text::{concat, ends_with, starts_with, str_ends_with, str_starts_with};
use crate::types::{ActionFile, MatchedLine};

verus! {

/// A file met while walking the searched folder: its path relative to the folder, its
/// file name, and its lines as read (`None` for a line that could not be read), or `None`
/// when the file could not be opened.
#[derive(Debug, Clone, PartialEq, Eq)]
pub struct GrepCandidate {
    pub rel_path: String,
    pub filename: String,
    pub lines: Option<Vec<Option<String>>>,
}

/// The content matches among `lines`: for each readable line that matches, its 1-based
/// number and text.
pub open spec fn content_matches(lines: Seq<Option<String>>, pattern: Seq<char>) -> Seq<(int, Seq<char>)>
    decreases lines.len(),
{
    if lines.len() == 0 {
        Seq::empty()
    } else {
        let rest = content_matches(lines.drop_last(), pattern);
        match lines.last() {
            Some(l) => if spec_regex_is_match(pattern, l@) {
                rest.push((lines.len() as int, l@))
            } else {
                rest
            },
            None => rest,
        }
    }
}

/// The content matches of a file are exactly its readable lines that the pattern matches:
/// every such line is reported with its 1-based number and its text, everything reported
/// is such a line, and the lines come in file order, each once.
pub proof fn lemma_content_matches_are_matching_lines(lines: Seq<Option<String>>, pattern: Seq<char>)
    ensures
        ({
            let cm = content_matches(lines, pattern);
            &&& forall|k: int|
                #![trigger lines[k]]
                0 <= k < lines.len() && lines[k] is Some && spec_regex_is_match(pattern, lines[k]->0@)
                    ==> cm.contains((k + 1, lines[k]->0@))
            &&& forall|j: int|
                #![trigger cm[j]]
                0 <= j < cm.len() ==> {
                    &&& 1 <= cm[j].0 <= lines.len()
                    &&& lines[cm[j].0 - 1] is Some
                    &&& lines[cm[j].0 - 1]->0@ == cm[j].1
                    &&& spec_regex_is_match(pattern, cm[j].1)
                }
            &&& forall|i: int, j: int| #![trigger cm[i], cm[j]] 0 <= i < j < cm.len() ==> cm[i].0 < cm[j].0
        }),
    decreases lines.len(),
{
    let cm = content_matches(lines, pattern);
    if lines.len() > 0 {
        let d = lines.drop_last();
        lemma_content_matches_are_matching_lines(d, pattern);
        let rest = content_matches(d, pattern);
        assert forall|j: int| #![trigger rest[j]] 0 <= j < rest.len() implies rest[j].0 <= d.len()
            && lines[rest[j].0 - 1] == d[rest[j].0 - 1] by {}
        assert forall|k: int|
            #![trigger lines[k]]
            0 <= k < lines.len() && lines[k] is Some && spec_regex_is_match(pattern, lines[k]->0@)
                implies cm.contains((k + 1, lines[k]->0@)) by {
            if k < d.len() {
                assert(d[k] == lines[k]);
                let w = choose|w: int| 0 <= w < rest.len() && rest[w] == (k + 1, lines[k]->0@);
                assert(cm[w] == rest[w]);
            } else {
                assert(cm[cm.len() - 1] == (k + 1, lines[k]->0@));
            }
        }
    }
}

/// The matches in a file: its name (as line 0) when it matches, then, for `.jsonl` files
/// that could be read, each matching line.
pub open spec fn file_matches(c: GrepCandidate, pattern: Seq<char>) -> Seq<(int, Seq<char>, bool)> {
    let name = if spec_regex_is_match(pattern, c.filename@) {
        seq![(0int, c.filename@, true)]
    } else {
        Seq::empty()
    };
    let body = if ends_with(c.filename@, ".jsonl"@) {
        match c.lines {
            Some(ls) => content_matches(ls@, pattern).map_values(|m: (int, Seq<char>)| (m.0, m.1, false)),
            None => Seq::empty(),
        }
    } else {
        Seq::empty()
    };
    name + body
}

/// A file counts as a hit: it is not hidden and something in it matches.
pub open spec fn is_hit(c: GrepCandidate, pattern: Seq<char>) -> bool {
    !starts_with(c.filename@, "."@) && file_matches(c, pattern).len() > 0
}

/// The hits among `cands`, in walking order.
pub open spec fn hits(cands: Seq<GrepCandidate>, pattern: Seq<char>) -> Seq<GrepCandidate>
    decreases cands.len(),
{
    if cands.len() == 0 {
        Seq::empty()
    } else if is_hit(cands.last(), pattern) {
        hits(cands.drop_last(), pattern).push(cands.last())
    } else {
        hits(cands.drop_last(), pattern)
    }
}

/// `f` reports the file `c` with its matches.
pub open spec fn reports(f: ActionFile, c: GrepCandidate, pattern: Seq<char>) -> bool {
    let ms = file_matches(c, pattern);
    &&& f.path@ == c.rel_path@
    &&& f.matched_lines.len() == ms.len()
    &&& forall|j: int|
        0 <= j < ms.len() ==> {
            let m = #[trigger] f.matched_lines[j];
            m.line_number == ms[j].0 && m.content@ == ms[j].1 && m.is_filename_match == ms[j].2
        }
}

/// The number of files reported at most: the requested number, 50 by default.
pub open spec fn max_of(max_results: Option<usize>) -> nat {
    match max_results {
        Some(m) => m as nat,
        None => 50,
    }
}

/// The texts the matcher is given for the file `c` start at `start` in `texts`: its name,
/// then, for a readable `.jsonl` file, one text per line (the line when it was read).
pub open spec fn texts_hold(c: GrepCandidate, texts: Seq<String>, start: int) -> bool {
    &&& 0 <= start < texts.len()
    &&& texts[start]@ == c.filename@
    &&& ends_with(c.filename@, ".jsonl"@) ==> (c.lines matches Some(ls) ==> {
        &&& start + 1 + ls.len() <= texts.len()
        &&& forall|q: int|
            0 <= q < ls.len() ==> (ls@[q] matches Some(l) ==> #[trigger] texts[start + 1 + q]@ == l@)
    })
}

/// Texts placed for a file stay in place when more are added after them.
proof fn lemma_texts_hold_extend(c: GrepCandidate, t: Seq<String>, t2: Seq<String>, start: int)
    requires
        texts_hold(c, t, start),
        t.len() <= t2.len(),
        forall|q: int| 0 <= q < t.len() ==> #[trigger] t2[q] == t[q],
    ensures
        texts_hold(c, t2, start),
{
    assert(t2[start] == t[start]);
    if ends_with(c.filename@, ".jsonl"@) {
        if let Some(ls) = c.lines {
            assert forall|q: int| 0 <= q < ls.len() && (ls@[q] matches Some(l)) implies (ls@[q] matches Some(l) && #[trigger] t2[start + 1 + q]@ == l@) by {
                assert(t2[start + 1 + q] == t[start + 1 + q]);
            }
        }
    }
}

/// The matched lines of one file.
fn matches_in(
    c: &GrepCandidate,
    Ghost(pattern): Ghost<Seq<char>>,
    texts: &Vec<String>,
    answers: &Vec<bool>,
    start: usize,
) -> (r: Vec<MatchedLine>)
    requires
        answers.len() == texts.len(),
        forall|q: int| 0 <= q < texts.len() ==> answers[q] == spec_regex_is_match(pattern, #[trigger] texts@[q]@),
        texts_hold(*c, texts@, start as int),
    ensures
        r.len() == file_matches(*c, pattern).len(),
        forall|j: int|
            0 <= j < r.len() ==> {
                let m = #[trigger] r[j];
                let e = file_matches(*c, pattern)[j];
                m.line_number == e.0 && m.content@ == e.1 && m.is_filename_match == e.2
            },
{
    let mut out: Vec<MatchedLine> = Vec::new();
    let name_hit = answers[start];
    assert(texts@[start as int]@ == c.filename@);
    if name_hit {
        out.push(MatchedLine { line_number: 0, content: c.filename.clone(), is_filename_match: true });
    }
    let ghost name_part = if name_hit {
        seq![(0int, c.filename@, true)]
    } else {
        Seq::<(int, Seq<char>, bool)>::empty()
    };
    assert(out.len() == name_part.len());
    let ghost mut content_part = Seq::<(int, Seq<char>, bool)>::empty();
    let jsonl = str_ends_with(c.filename.as_str(), ".jsonl");
    if jsonl {
        match &c.lines {
            Some(lines) => {
                {
                    let ghost ms = content_matches(lines@, pattern);
                    let mut k: usize = 0;
                    while k < lines.len()
                        invariant
                            k <= lines.len(),
                            answers.len() == texts.len(),
                            start + 1 + lines.len() <= texts.len(),
                            forall|q: int| 0 <= q < lines.len() ==> (lines@[q] matches Some(l) ==> #[trigger] texts@[start + 1 + q]@ == l@),
                            forall|q: int| 0 <= q < texts.len() ==> answers[q] == spec_regex_is_match(pattern, #[trigger] texts@[q]@),
                            out.len() == name_part.len() + content_matches(lines@.take(k as int), pattern).len(),
                            forall|j: int| 0 <= j < name_part.len() ==> {
                                let m = #[trigger] out@[j];
                                m.line_number == name_part[j].0 && m.content@ == name_part[j].1 && m.is_filename_match == name_part[j].2
                            },
                            forall|j: int| 0 <= j < content_matches(lines@.take(k as int), pattern).len() ==> {
                                let m = #[trigger] out@[name_part.len() + j];
                                let e = content_matches(lines@.take(k as int), pattern)[j];
                                m.line_number == e.0 && m.content@ == e.1 && !m.is_filename_match
                            },
                        decreases lines.len() - k,
                    {
                        let ghost cm_old = content_matches(lines@.take(k as int), pattern);
                        let ghost out_old = out@;
                        proof {
                            assert(lines@.take(k + 1).drop_last() =~= lines@.take(k as int));
                            assert(lines@.take(k + 1).last() == lines@[k as int]);
                        }
                        match &lines[k] {
                            Some(l) => {
                                assert(texts@[start + 1 + k]@ == l@);
                                if answers[start + 1 + k] {
                                    out.push(MatchedLine { line_number: k + 1, content: l.clone(), is_filename_match: false });
                                    assert(content_matches(lines@.take(k + 1), pattern) == cm_old.push(((k + 1) as int, l@)));
                                } else {
                                    assert(content_matches(lines@.take(k + 1), pattern) == cm_old);
                                }
                            },
                            None => {
                                assert(content_matches(lines@.take(k + 1), pattern) == cm_old);
                            },
                        }
                        proof {
                            assert forall|j: int| 0 <= j < name_part.len() implies {
                                let m = #[trigger] out@[j];
                                m.line_number == name_part[j].0 && m.content@ == name_part[j].1 && m.is_filename_match == name_part[j].2
                            } by {
                                assert(out@[j] == out_old[j]);
                            }
                            assert forall|j: int| 0 <= j < content_matches(lines@.take(k + 1), pattern).len() implies {
                                let m = #[trigger] out@[name_part.len() + j];
                                let e = content_matches(lines@.take(k + 1), pattern)[j];
                                m.line_number == e.0 && m.content@ == e.1 && !m.is_filename_match
                            } by {
                                if j < cm_old.len() {
                                    assert(out@[name_part.len() + j] == out_old[name_part.len() + j]);
                                }
                            }
                        }
                        k = k + 1;
                    }
                    assert(lines@.take(lines.len() as int) =~= lines@);
                    proof {
                        content_part = ms.map_values(|m: (int, Seq<char>)| (m.0, m.1, false));
                        assert forall|j: int| 0 <= j < content_part.len() implies {
                            let m = #[trigger] out@[name_part.len() + j];
                            let e = content_part[j];
                            m.line_number == e.0 && m.content@ == e.1 && m.is_filename_match == e.2
                        } by {
                            assert(content_part[j] == (ms[j].0, ms[j].1, false));
                        }
                    }
                }
            },
            None => {},
        }
    }
    proof {
        let cc = *c;
        let body = if ends_with(c.filename@, ".jsonl"@) {
            match cc.lines {
                Some(ls) => content_matches(ls@, pattern).map_values(|m: (int, Seq<char>)| (m.0, m.1, false)),
                None => Seq::empty(),
            }
        } else {
            Seq::<(int, Seq<char>, bool)>::empty()
        };
        let fm = file_matches(cc, pattern);
        assert(body == content_part);
        assert(out.len() == name_part.len() + content_part.len());
        assert(fm =~= name_part + body);
        assert forall|j: int| 0 <= j < fm.len() implies {
            let m = #[trigger] out@[j];
            let e = fm[j];
            m.line_number == e.0 && m.content@ == e.1 && m.is_filename_match == e.2
        } by {
            if j >= name_part.len() {
                assert(fm[j] == content_part[j - name_part.len()]);
                assert(out@[name_part.len() + (j - name_part.len())] == out@[j]);
            }
        }
    }
    out
}

/// Searches the files met while walking a folder (in walking order) for `pattern` in
/// their names and, for `.jsonl` files, their lines. Hidden files are skipped; at most
/// `max_results` files (50 by default) are reported, the first ones found. An invalid
/// pattern is a validation error.
pub fn grep_search(
    candidates: &Vec<GrepCandidate>,
    pattern: &str,
    max_results: Option<usize>,
) -> (r: Result<Vec<ActionFile>, PhronesisError>)
    ensures
        r is Ok <==> spec_regex_compiles(pattern@),
        r matches Err(e) ==> e is Validation && starts_with(e->Validation_0@, "Invalid regex: "@),
        r matches Ok(files) ==> {
            let hs = hits(candidates@, pattern@);
            &&& files.len() == (if hs.len() < max_of(max_results) {
                hs.len()
            } else {
                max_of(max_results)
            })
            &&& forall|i: int| 0 <= i < files.len() ==> reports(#[trigger] files[i], hs[i], pattern@)
        },
{
    let max: usize = match max_results {
        Some(m) => m,
        None => 50,
    };
    let mut texts: Vec<String> = Vec::new();
    let mut starts: Vec<usize> = Vec::new();
    let mut i: usize = 0;
    while i < candidates.len()
        invariant
            i <= candidates.len(),
            starts.len() == i,
            forall|j: int|
                0 <= j < i ==> !starts_with(candidates@[j].filename@, "."@) ==> texts_hold(
                    #[trigger] candidates@[j],
                    texts@,
                    starts@[j] as int,
                ),
        decreases candidates.len() - i,
    {
        let c = &candidates[i];
        let start = texts.len();
        let ghost before = texts@;
        if !str_starts_with(c.filename.as_str(), ".") {
            texts.push(c.filename.clone());
            if str_ends_with(c.filename.as_str(), ".jsonl") {
                match &c.lines {
                    Some(lines) => {
                        let mut k: usize = 0;
                        while k < lines.len()
                            invariant
                                k <= lines.len(),
                                texts.len() == start + 1 + k,
                                before.len() == start,
                                texts@[start as int]@ == c.filename@,
                                forall|q: int| 0 <= q < before.len() ==> #[trigger] texts@[q] == before[q],
                                forall|q: int| 0 <= q < k ==> (lines@[q] matches Some(l) ==> #[trigger] texts@[start + 1 + q]@ == l@),
                            decreases lines.len() - k,
                        {
                            match &lines[k] {
                                Some(l) => texts.push(l.clone()),
                                None => texts.push(String::new()),
                            }
                            k = k + 1;
                        }
                    },
                    None => {},
                }
            }
            assert(texts_hold(*c, texts@, start as int));
        }
        proof {
            assert forall|j: int|
                0 <= j < i && !starts_with(candidates@[j].filename@, "."@) implies texts_hold(
                #[trigger] candidates@[j],
                texts@,
                starts@[j] as int,
            ) by {
                lemma_texts_hold_extend(candidates@[j], before, texts@, starts@[j] as int);
            }
        }
        starts.push(start);
        i = i + 1;
    }
    let answers = match regex_match_each(pattern, &texts) {
        Err(msg) => {
            let m = concat("Invalid regex: ", msg.as_str());
            assert(m@.subrange(0, "Invalid regex: "@.len() as int) =~= "Invalid regex: "@);
            return Err(PhronesisError::Validation(m));
        },
        Ok(v) => v,
    };
    let mut results: Vec<ActionFile> = Vec::new();
    let mut i: usize = 0;
    while i < candidates.len() && results.len() < max
        invariant
            i <= candidates.len(),
            starts.len() == candidates.len(),
            answers.len() == texts.len(),
            forall|q: int| 0 <= q < texts.len() ==> answers[q] == spec_regex_is_match(pattern@, #[trigger] texts@[q]@),
            forall|j: int|
                0 <= j < candidates.len() ==> !starts_with(candidates@[j].filename@, "."@) ==> texts_hold(
                    #[trigger] candidates@[j],
                    texts@,
                    starts@[j] as int,
                ),
            spec_regex_compiles(pattern@),
            max == max_of(max_results),
            results.len() <= max,
            results.len() == hits(candidates@.take(i as int), pattern@).len(),
            forall|j: int| 0 <= j < results.len() ==> reports(#[trigger] results[j], hits(candidates@.take(i as int), pattern@)[j], pattern@),
        decreases candidates.len() - i,
    {
        proof {
            assert(candidates@.take(i + 1).drop_last() =~= candidates@.take(i as int));
        }
        let c = &candidates[i];
        if !str_starts_with(c.filename.as_str(), ".") {
            let ms = matches_in(c, Ghost(pattern@), &texts, &answers, starts[i]);
            if ms.len() > 0 {
                results.push(ActionFile { path: c.rel_path.clone(), matched_lines: ms });
            }
        }
        i = i + 1;
    }
    proof {
        lemma_hits_prefix(candidates@, pattern@, i as int);
    }
    Ok(results)
}

/// The hits of a prefix are a prefix of the hits; once a prefix has `n` hits, the first
/// `n` hits are found there.
proof fn lemma_hits_prefix(cands: Seq<GrepCandidate>, pattern: Seq<char>, i: int)
    requires
        0 <= i <= cands.len(),
    ensures
        hits(cands.take(i), pattern).len() <= hits(cands, pattern).len(),
        forall|j: int| 0 <= j < hits(cands.take(i), pattern).len() ==> #[trigger] hits(cands.take(i), pattern)[j] == hits(cands, pattern)[j],
        i == cands.len() ==> hits(cands.take(i), pattern) == hits(cands, pattern),
    decreases cands.len() - i,
{
    if i == cands.len() {
        assert(cands.take(i) =~= cands);
    } else {
        lemma_hits_prefix(cands.drop_last(), pattern, i);
        assert(cands.drop_last().take(i) =~= cands.take(i));
    }
}

} // verus!
