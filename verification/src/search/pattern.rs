//! Regular-expression matching, delegated to the `regex` crate.
use vstd::prelude::*;

verus! {

/// Whether `regex::Regex::new` accepts `pattern`.
pub uninterp spec fn spec_regex_compiles(pattern: Seq<char>) -> bool;

/// What `regex::Regex::is_match` answers for the compiled `pattern` on `text`.
pub uninterp spec fn spec_regex_is_match(pattern: Seq<char>, text: Seq<char>) -> bool;

/// The action-file naming pattern `^[a-z][a-z0-9]*(_[a-z][a-z0-9]*)+\.jsonl$`.
pub open spec fn naming_pattern() -> Seq<char> {
    "^[a-z][a-z0-9]*(_[a-z][a-z0-9]*)+\\.jsonl$"@
}

/// A lowercase ASCII letter.
pub open spec fn is_lower(c: char) -> bool {
    'a' <= c <= 'z'
}

/// A character allowed in the stem of an action-file name.
pub open spec fn is_stem_char(c: char) -> bool {
    is_lower(c) || ('0' <= c <= '9') || c == '_'
}

/// `s` matches `[a-z][a-z0-9]*(_[a-z][a-z0-9]*)+`: lowercase words of letters and digits,
/// each starting with a letter, at least two of them, joined by single underscores.
pub open spec fn valid_stem(s: Seq<char>) -> bool {
    &&& s.len() > 0
    &&& is_lower(s[0])
    &&& forall|i: int| 0 <= i < s.len() ==> is_stem_char(#[trigger] s[i])
    &&& forall|i: int| 0 <= i < s.len() && #[trigger] s[i] == '_' ==> i + 1 < s.len() && is_lower(s[i + 1])
    &&& exists|i: int| 0 <= i < s.len() && #[trigger] s[i] == '_'
}

/// `name` follows the `verb_object[_method].jsonl` convention, i.e. the whole of `name`
/// matches `naming_pattern()`.
pub open spec fn valid_action_name(name: Seq<char>) -> bool {
    &&& name.len() > 6
    &&& name.skip(name.len() - 6) == seq!['.', 'j', 's', 'o', 'n', 'l']
    &&& valid_stem(name.take(name.len() - 6))
}

/// Compiles `pattern` with `regex::Regex::new` and, when that succeeds, answers
/// `Regex::is_match` for each of `texts`. The contract names those answers, and states
/// for the naming pattern the language that its regex syntax denotes.
/// When compiling fails, the error's message (its `Display`) is returned; nothing is
/// claimed of that message.
#[verifier::external_body]
pub(crate) fn regex_match_each(pattern: &str, texts: &Vec<String>) -> (r: Result<Vec<bool>, String>)
    ensures
        r is Ok <==> spec_regex_compiles(pattern@),
        r matches Ok(v) ==> v.len() == texts.len() && forall|i: int|
            0 <= i < texts.len() ==> v[i] == spec_regex_is_match(pattern@, #[trigger] texts[i]@),
        pattern@ == naming_pattern() ==> r is Ok,
        r matches Ok(v) ==> (pattern@ == naming_pattern() ==> forall|i: int|
            0 <= i < texts.len() ==> v[i] == valid_action_name(#[trigger] texts[i]@)),
{
    match regex::Regex::new(pattern) {
        Ok(re) => Ok(texts.iter().map(|t| re.is_match(t)).collect()),
        Err(e) => Err(e.to_string()),
    }
}

} // verus!
