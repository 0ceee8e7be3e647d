//! Character-level string utilities, specified over `Seq<char>`.
use vstd::prelude::*;

verus! {

/// Appends one character to a string.
/// Calls `String::push`; the contract claims the character is added at the end.
#[verifier::external_body]
pub(crate) fn push_char(s: &mut String, c: char)
    ensures
        final(s)@ == old(s)@.push(c),
{
    s.push(c);
}

/// The characters of `s`, in order.
pub fn chars_of(s: &str) -> (v: Vec<char>)
    ensures
        v@ == s@,
{
    let mut v: Vec<char> = Vec::new();
    for c in it: s.chars()
        invariant
            v@ == it.seq().take(it.index() as int),
            it.seq() == s@,
    {
        v.push(c);
    }
    v
}

/// A string holding exactly the characters `v[from..to]`.
pub fn string_of_range(v: &Vec<char>, from: usize, to: usize) -> (s: String)
    requires
        from <= to <= v.len(),
    ensures
        s@ == v@.subrange(from as int, to as int),
{
    let mut s = String::new();
    let mut i = from;
    while i < to
        invariant
            from <= i <= to <= v.len(),
            s@ == v@.subrange(from as int, i as int),
        decreases to - i,
    {
        push_char(&mut s, v[i]);
        i = i + 1;
        assert(s@ =~= v@.subrange(from as int, i as int));
    }
    s
}

/// A string holding exactly the characters of `v`.
pub fn string_of(v: &Vec<char>) -> (s: String)
    ensures
        s@ == v@,
{
    let s = string_of_range(v, 0, v.len());
    assert(v@.subrange(0, v@.len() as int) =~= v@);
    s
}

/// A copy of `s`.
pub fn copy_str(s: &str) -> (r: String)
    ensures
        r@ == s@,
{
    let v = chars_of(s);
    string_of(&v)
}

/// `a` followed by `b`, as a new string.
pub fn concat(a: &str, b: &str) -> (r: String)
    ensures
        r@ == a@ + b@,
{
    let mut r = copy_str(a);
    let v = chars_of(b);
    let mut i: usize = 0;
    while i < v.len()
        invariant
            i <= v.len(),
            v@ == b@,
            r@ == a@ + b@.take(i as int),
        decreases v.len() - i,
    {
        push_char(&mut r, v[i]);
        i = i + 1;
        assert(r@ =~= a@ + b@.take(i as int));
    }
    assert(b@.take(v.len() as int) =~= b@);
    r
}

/// `a`, `b` and `c` one after the other.
pub fn concat3(a: &str, b: &str, c: &str) -> (r: String)
    ensures
        r@ == a@ + b@ + c@,
{
    let ab = concat(a, b);
    concat(ab.as_str(), c)
}

/// Whether `c` has the Unicode `White_Space` property (what `char::is_whitespace` tests).
pub open spec fn is_ws(c: char) -> bool {
    ||| ('\u{9}' <= c <= '\u{d}')
    ||| c == ' '
    ||| c == '\u{85}'
    ||| c == '\u{a0}'
    ||| c == '\u{1680}'
    ||| ('\u{2000}' <= c <= '\u{200a}')
    ||| c == '\u{2028}'
    ||| c == '\u{2029}'
    ||| c == '\u{202f}'
    ||| c == '\u{205f}'
    ||| c == '\u{3000}'
}

/// Executable whitespace test.
pub fn char_is_ws(c: char) -> (b: bool)
    ensures
        b == is_ws(c),
{
    ('\u{9}' <= c && c <= '\u{d}') || c == ' ' || c == '\u{85}' || c == '\u{a0}' || c == '\u{1680}'
        || ('\u{2000}' <= c && c <= '\u{200a}') || c == '\u{2028}' || c == '\u{2029}' || c
        == '\u{202f}' || c == '\u{205f}' || c == '\u{3000}'
}

/// `s` without its leading whitespace.
pub open spec fn trim_start(s: Seq<char>) -> Seq<char>
    decreases s.len(),
{
    if s.len() > 0 && is_ws(s[0]) {
        trim_start(s.drop_first())
    } else {
        s
    }
}

/// `s` without its trailing whitespace.
pub open spec fn trim_end(s: Seq<char>) -> Seq<char>
    decreases s.len(),
{
    if s.len() > 0 && is_ws(s.last()) {
        trim_end(s.drop_last())
    } else {
        s
    }
}

/// `s` without leading and trailing whitespace, as `str::trim` gives it.
pub open spec fn trim(s: Seq<char>) -> Seq<char> {
    trim_end(trim_start(s))
}

proof fn lemma_trim_start_skip(s: Seq<char>, i: int)
    requires
        0 <= i <= s.len(),
        forall|j: int| 0 <= j < i ==> is_ws(#[trigger] s[j]),
    ensures
        trim_start(s) == trim_start(s.skip(i)),
    decreases i,
{
    if i > 0 {
        assert(s.drop_first().skip(i - 1) =~= s.skip(i));
        lemma_trim_start_skip(s.drop_first(), i - 1);
    } else {
        assert(s.skip(0) =~= s);
    }
}

proof fn lemma_trim_end_take(s: Seq<char>, k: int)
    requires
        0 <= k <= s.len(),
        forall|j: int| k <= j < s.len() ==> is_ws(#[trigger] s[j]),
    ensures
        trim_end(s) == trim_end(s.take(k)),
    decreases s.len() - k,
{
    if k < s.len() {
        assert(s.drop_last().take(k) =~= s.take(k));
        lemma_trim_end_take(s.drop_last(), k);
    } else {
        assert(s.take(k) =~= s);
    }
}

/// The bounds `[a, b)` of the trimmed part of `v`.
pub fn trim_bounds(v: &Vec<char>) -> (r: (usize, usize))
    ensures
        r.0 <= r.1 <= v.len(),
        v@.subrange(r.0 as int, r.1 as int) == trim(v@),
{
    let mut a: usize = 0;
    while a < v.len() && char_is_ws(v[a])
        invariant
            a <= v.len(),
            forall|j: int| 0 <= j < a ==> is_ws(#[trigger] v@[j]),
        decreases v.len() - a,
    {
        a = a + 1;
    }
    proof {
        lemma_trim_start_skip(v@, a as int);
        assert(trim_start(v@.skip(a as int)) == v@.skip(a as int));
    }
    let mut b: usize = v.len();
    while b > a && char_is_ws(v[b - 1])
        invariant
            a <= b <= v.len(),
            forall|j: int| b <= j < v.len() ==> is_ws(#[trigger] v@[j]),
        decreases b,
    {
        b = b - 1;
    }
    proof {
        let t = v@.skip(a as int);
        let k = (b - a) as int;
        assert forall|j: int| k <= j < t.len() implies is_ws(#[trigger] t[j]) by {
            assert(t[j] == v@[j + a]);
        }
        lemma_trim_end_take(t, k);
        assert(t.take(k) =~= v@.subrange(a as int, b as int));
        let u = t.take(k);
        if u.len() > 0 {
            assert(u.last() == v@[b - 1]);
        }
        assert(trim_end(u) == u);
    }
    (a, b)
}

/// `s` with leading and trailing whitespace removed.
pub fn trim_str(s: &str) -> (r: String)
    ensures
        r@ == trim(s@),
{
    let v = chars_of(s);
    let (a, b) = trim_bounds(&v);
    string_of_range(&v, a, b)
}


/// `p` occurs in `s` starting at position `i`.
pub open spec fn matches_at(s: Seq<char>, p: Seq<char>, i: int) -> bool {
    0 <= i && i + p.len() <= s.len() && s.subrange(i, i + p.len()) == p
}

/// `s` begins with `p`.
pub open spec fn starts_with(s: Seq<char>, p: Seq<char>) -> bool {
    matches_at(s, p, 0)
}

/// `s` ends with `p`.
pub open spec fn ends_with(s: Seq<char>, p: Seq<char>) -> bool {
    p.len() <= s.len() && matches_at(s, p, s.len() - p.len())
}

/// `p` occurs somewhere in `s`.
pub open spec fn contains(s: Seq<char>, p: Seq<char>) -> bool {
    exists|i: int| #[trigger] matches_at(s, p, i)
}

/// The first position at or after `i` where `p` occurs in `s`, as `str::find` reports it.
pub open spec fn find_from(s: Seq<char>, p: Seq<char>, i: int) -> Option<int>
    decreases s.len() + 1 - i,
{
    if i < 0 || i + p.len() > s.len() {
        None
    } else if matches_at(s, p, i) {
        Some(i)
    } else {
        find_from(s, p, i + 1)
    }
}

/// The first position where `p` occurs in `s`.
pub open spec fn find(s: Seq<char>, p: Seq<char>) -> Option<int> {
    find_from(s, p, 0)
}

pub proof fn lemma_find_from(s: Seq<char>, p: Seq<char>, i: int)
    requires
        0 <= i,
    ensures
        find_from(s, p, i) matches Some(k) ==> i <= k && matches_at(s, p, k) && forall|j: int|
            i <= j < k ==> !#[trigger] matches_at(s, p, j),
        find_from(s, p, i) is None ==> forall|j: int| i <= j ==> !#[trigger] matches_at(s, p, j),
    decreases s.len() + 1 - i,
{
    if i + p.len() > s.len() {
    } else if matches_at(s, p, i) {
    } else {
        lemma_find_from(s, p, i + 1);
    }
}

/// `contains` agrees with `find`.
pub proof fn lemma_contains_find(s: Seq<char>, p: Seq<char>)
    ensures
        contains(s, p) <==> find(s, p) is Some,
        find(s, p) matches Some(k) ==> matches_at(s, p, k),
{
    lemma_find_from(s, p, 0);
    if contains(s, p) {
        let k = choose|k: int| #[trigger] matches_at(s, p, k);
        assert(0 <= k);
    }
}

/// Whether `p` occurs in `v` at position `i`.
pub fn matches_at_exec(v: &Vec<char>, p: &Vec<char>, i: usize) -> (b: bool)
    ensures
        b == matches_at(v@, p@, i as int),
{
    if i > v.len() || p.len() > v.len() - i {
        return false;
    }
    let mut j: usize = 0;
    while j < p.len()
        invariant
            i + p.len() <= v.len(),
            j <= p.len(),
            forall|k: int| 0 <= k < j ==> v@[i + k] == p@[k],
        decreases p.len() - j,
    {
        if v[i + j] != p[j] {
            assert(v@.subrange(i as int, i + p.len())[j as int] != p@[j as int]);
            return false;
        }
        j = j + 1;
    }
    assert(v@.subrange(i as int, i + p.len()) =~= p@);
    true
}

/// The first position where `p` occurs in `v`.
pub fn find_exec(v: &Vec<char>, p: &Vec<char>) -> (r: Option<usize>)
    ensures
        r matches Some(k) ==> find(v@, p@) == Some(k as int),
        r is None ==> find(v@, p@) is None,
{
    if p.len() > v.len() {
        return None;
    }
    let mut i: usize = 0;
    let last = v.len() - p.len();
    loop
        invariant
            p.len() <= v.len(),
            last == v.len() - p.len(),
            i <= last,
            find(v@, p@) == find_from(v@, p@, i as int),
        decreases last - i,
    {
        if matches_at_exec(v, p, i) {
            return Some(i);
        }
        if i == last {
            assert(find_from(v@, p@, i + 1) is None);
            return None;
        }
        i = i + 1;
    }
}

/// Whether `p` occurs in `s`.
pub fn contains_exec(s: &Vec<char>, p: &Vec<char>) -> (b: bool)
    ensures
        b == contains(s@, p@),
{
    proof {
        lemma_contains_find(s@, p@);
    }
    find_exec(s, p).is_some()
}

/// Whether the string `p` occurs in the string `s`.
pub fn str_contains(s: &str, p: &str) -> (b: bool)
    ensures
        b == contains(s@, p@),
{
    let v = chars_of(s);
    let w = chars_of(p);
    contains_exec(&v, &w)
}

/// Whether `s` begins with `p`.
pub fn str_starts_with(s: &str, p: &str) -> (b: bool)
    ensures
        b == starts_with(s@, p@),
{
    let v = chars_of(s);
    let w = chars_of(p);
    matches_at_exec(&v, &w, 0)
}

/// Whether `s` ends with `p`.
pub fn str_ends_with(s: &str, p: &str) -> (b: bool)
    ensures
        b == ends_with(s@, p@),
{
    let v = chars_of(s);
    let w = chars_of(p);
    if w.len() > v.len() {
        false
    } else {
        matches_at_exec(&v, &w, v.len() - w.len())
    }
}

/// Whether the character `c` occurs in `s`.
pub fn str_has_char(s: &str, c: char) -> (b: bool)
    ensures
        b == s@.contains(c),
{
    let v = chars_of(s);
    let mut i: usize = 0;
    while i < v.len()
        invariant
            i <= v.len(),
            v@ == s@,
            forall|j: int| 0 <= j < i ==> v@[j] != c,
        decreases v.len() - i,
    {
        if v[i] == c {
            return true;
        }
        i = i + 1;
    }
    false
}

/// `a` sorts strictly before `b` in the order of `str`'s `Ord`
/// (code point by code point, a proper prefix first).
pub open spec fn lex_lt(a: Seq<char>, b: Seq<char>) -> bool
    decreases a.len(),
{
    if b.len() == 0 {
        false
    } else if a.len() == 0 {
        true
    } else if a[0] != b[0] {
        a[0] < b[0]
    } else {
        lex_lt(a.drop_first(), b.drop_first())
    }
}

proof fn lemma_lex_lt_skip(a: Seq<char>, b: Seq<char>, i: int)
    requires
        0 <= i <= a.len(),
        i <= b.len(),
        forall|j: int| 0 <= j < i ==> a[j] == b[j],
    ensures
        lex_lt(a, b) == lex_lt(a.skip(i), b.skip(i)),
    decreases i,
{
    if i > 0 {
        assert(a.drop_first().skip(i - 1) =~= a.skip(i));
        assert(b.drop_first().skip(i - 1) =~= b.skip(i));
        lemma_lex_lt_skip(a.drop_first(), b.drop_first(), i - 1);
    } else {
        assert(a.skip(0) =~= a);
        assert(b.skip(0) =~= b);
    }
}

/// Whether `a` sorts strictly before `b`.
pub fn lex_lt_exec(a: &Vec<char>, b: &Vec<char>) -> (r: bool)
    ensures
        r == lex_lt(a@, b@),
{
    let mut i: usize = 0;
    while i < a.len() && i < b.len() && a[i] == b[i]
        invariant
            i <= a.len(),
            i <= b.len(),
            forall|j: int| 0 <= j < i ==> a@[j] == b@[j],
        decreases a.len() - i,
    {
        i = i + 1;
    }
    proof {
        lemma_lex_lt_skip(a@, b@, i as int);
    }
    if i == b.len() {
        false
    } else if i == a.len() {
        true
    } else {
        proof {
            assert(a@.skip(i as int)[0] == a@[i as int]);
            assert(b@.skip(i as int)[0] == b@[i as int]);
        }
        a[i] < b[i]
    }
}

/// Whether string `a` sorts strictly before string `b`.
pub fn str_lt(a: &str, b: &str) -> (r: bool)
    ensures
        r == lex_lt(a@, b@),
{
    let va = chars_of(a);
    let vb = chars_of(b);
    lex_lt_exec(&va, &vb)
}


/// Appends the characters of `t` to `s`.
pub fn push_str(s: &mut String, t: &str)
    ensures
        final(s)@ == old(s)@ + t@,
{
    let v = chars_of(t);
    let mut i: usize = 0;
    while i < v.len()
        invariant
            i <= v.len(),
            v@ == t@,
            s@ == old(s)@ + t@.take(i as int),
        decreases v.len() - i,
    {
        push_char(s, v[i]);
        i = i + 1;
        assert(s@ =~= old(s)@ + t@.take(i as int));
    }
    assert(t@.take(v.len() as int) =~= t@);
}

/// `s` with every trailing copy of `p` removed, as `str::trim_end_matches` gives it.
pub open spec fn trim_suffix_all(s: Seq<char>, p: Seq<char>) -> Seq<char>
    decreases s.len(),
{
    if p.len() > 0 && ends_with(s, p) {
        trim_suffix_all(s.take(s.len() - p.len()), p)
    } else {
        s
    }
}

/// `s` with every trailing copy of `p` removed.
pub fn trim_suffix_all_str(s: &str, p: &str) -> (r: String)
    ensures
        r@ == trim_suffix_all(s@, p@),
{
    let v = chars_of(s);
    let w = chars_of(p);
    let mut end: usize = v.len();
    assert(s@.take(v.len() as int) =~= s@);
    while w.len() > 0 && w.len() <= end && matches_at_exec(&v, &w, end - w.len())
        invariant
            end <= v.len(),
            v@ == s@,
            w@ == p@,
            trim_suffix_all(s@, p@) == trim_suffix_all(s@.take(end as int), p@),
        decreases end,
    {
        proof {
            let t = s@.take(end as int);
            assert(t.subrange(end - w.len(), end as int) =~= s@.subrange(end - w.len(), end as int));
            assert(t.take(end - w.len()) =~= s@.take(end - w.len()));
        }
        end = end - w.len();
    }
    proof {
        let t = s@.take(end as int);
        if w.len() > 0 && w.len() <= end {
            assert(t.subrange(end - w.len(), end as int) =~= s@.subrange(end - w.len(), end as int));
        }
    }
    string_of_range(&v, 0, end)
}

/// What follows the last `c` in `s` (all of `s` when there is none): the first item of
/// `str::rsplit(c)`.
pub open spec fn after_last(s: Seq<char>, c: char) -> Seq<char>
    decreases s.len(),
{
    if s.len() == 0 {
        s
    } else if s.last() == c {
        Seq::empty()
    } else {
        after_last(s.drop_last(), c).push(s.last())
    }
}

/// When `k` follows the last `c` of `s` (or is 0 when there is none), what follows the
/// last `c` is `s` from `k` on.
pub proof fn lemma_after_last(s: Seq<char>, c: char, k: int)
    requires
        0 <= k <= s.len(),
        forall|j: int| k <= j < s.len() ==> s[j] != c,
        k == 0 || s[k - 1] == c,
    ensures
        after_last(s, c) == s.skip(k),
    decreases s.len() - k,
{
    if k < s.len() {
        lemma_after_last(s.drop_last(), c, k);
        assert(s.drop_last().skip(k).push(s.last()) =~= s.skip(k));
    } else if s.len() > 0 {
        assert(s.skip(k) =~= Seq::<char>::empty());
    } else {
        assert(s.skip(k) =~= s);
    }
}

/// What follows the last `c` in `s`.
pub fn after_last_str(s: &str, c: char) -> (r: String)
    ensures
        r@ == after_last(s@, c),
{
    let v = chars_of(s);
    let mut k: usize = v.len();
    while k > 0 && v[k - 1] != c
        invariant
            k <= v.len(),
            v@ == s@,
            forall|j: int| k <= j < v.len() ==> v@[j] != c,
        decreases k,
    {
        k = k - 1;
    }
    proof {
        lemma_after_last(s@, c, k as int);
        assert(s@.skip(k as int) =~= s@.subrange(k as int, s@.len() as int));
    }
    string_of_range(&v, k, v.len())
}

/// The pieces of `s` between occurrences of `c`, as `str::split(c)` yields them:
/// the finished pieces and the piece still open after the last character.
pub open spec fn split_scan(s: Seq<char>, c: char) -> (Seq<Seq<char>>, Seq<char>)
    decreases s.len(),
{
    if s.len() == 0 {
        (Seq::empty(), Seq::empty())
    } else {
        let (done, cur) = split_scan(s.drop_last(), c);
        if s.last() == c {
            (done.push(cur), Seq::empty())
        } else {
            (done, cur.push(s.last()))
        }
    }
}

/// The pieces of `s` between occurrences of `c`.
pub open spec fn split_char(s: Seq<char>, c: char) -> Seq<Seq<char>> {
    split_scan(s, c).0.push(split_scan(s, c).1)
}

/// The pieces of `s` between occurrences of `c`.
pub fn split_char_str(s: &str, c: char) -> (r: Vec<String>)
    ensures
        r.deep_view() == split_char(s@, c),
{
    let v = chars_of(s);
    let mut done: Vec<String> = Vec::new();
    let mut cur = String::new();
    let mut i: usize = 0;
    while i < v.len()
        invariant
            i <= v.len(),
            v@ == s@,
            (done.deep_view(), cur@) == split_scan(s@.take(i as int), c),
        decreases v.len() - i,
    {
        proof {
            assert(s@.take(i + 1).drop_last() =~= s@.take(i as int));
        }
        if v[i] == c {
            let piece = cur;
            done.push(piece);
            cur = String::new();
            assert(done.deep_view() =~= split_scan(s@.take(i + 1), c).0);
        } else {
            push_char(&mut cur, v[i]);
        }
        i = i + 1;
    }
    assert(s@.take(v.len() as int) =~= s@);
    done.push(cur);
    assert(done.deep_view() =~= split_char(s@, c));
    done
}

/// The runs of non-whitespace characters of `s`, as `str::split_whitespace` yields them:
/// the finished runs and the run still open.
pub open spec fn ws_scan(s: Seq<char>) -> (Seq<Seq<char>>, Seq<char>)
    decreases s.len(),
{
    if s.len() == 0 {
        (Seq::empty(), Seq::empty())
    } else {
        let (done, cur) = ws_scan(s.drop_last());
        if is_ws(s.last()) {
            if cur.len() > 0 {
                (done.push(cur), Seq::empty())
            } else {
                (done, Seq::empty())
            }
        } else {
            (done, cur.push(s.last()))
        }
    }
}

/// The words of `s`.
pub open spec fn split_ws(s: Seq<char>) -> Seq<Seq<char>> {
    if ws_scan(s).1.len() > 0 {
        ws_scan(s).0.push(ws_scan(s).1)
    } else {
        ws_scan(s).0
    }
}

/// The words of `s`.
pub fn split_ws_str(s: &str) -> (r: Vec<String>)
    ensures
        r.deep_view() == split_ws(s@),
{
    let v = chars_of(s);
    let mut done: Vec<String> = Vec::new();
    let mut cur = String::new();
    let mut i: usize = 0;
    while i < v.len()
        invariant
            i <= v.len(),
            v@ == s@,
            (done.deep_view(), cur@) == ws_scan(s@.take(i as int)),
        decreases v.len() - i,
    {
        proof {
            assert(s@.take(i + 1).drop_last() =~= s@.take(i as int));
        }
        if char_is_ws(v[i]) {
            if !cur.as_str().is_empty() {
                let piece = cur;
                done.push(piece);
                assert(done.deep_view() =~= ws_scan(s@.take(i + 1)).0);
            }
            cur = String::new();
        } else {
            push_char(&mut cur, v[i]);
        }
        i = i + 1;
    }
    assert(s@.take(v.len() as int) =~= s@);
    if !cur.as_str().is_empty() {
        done.push(cur);
        assert(done.deep_view() =~= split_ws(s@));
    }
    done
}

/// `parts` joined with `sep` between neighbours, as `[String]::join` gives it.
pub open spec fn join(parts: Seq<Seq<char>>, sep: Seq<char>) -> Seq<char>
    decreases parts.len(),
{
    if parts.len() == 0 {
        Seq::empty()
    } else if parts.len() == 1 {
        parts[0]
    } else {
        join(parts.drop_last(), sep) + sep + parts.last()
    }
}

/// `parts` joined with `sep` between neighbours.
pub fn join_strs(parts: &Vec<String>, sep: &str) -> (r: String)
    ensures
        r@ == join(parts.deep_view(), sep@),
{
    let mut r = String::new();
    let ghost dv = parts.deep_view();
    let mut i: usize = 0;
    while i < parts.len()
        invariant
            i <= parts.len(),
            dv == parts.deep_view(),
            r@ == join(dv.take(i as int), sep@),
        decreases parts.len() - i,
    {
        proof {
            assert(dv.take(i + 1).drop_last() =~= dv.take(i as int));
        }
        if i > 0 {
            push_str(&mut r, sep);
        }
        push_str(&mut r, parts[i].as_str());
        proof {
            if i == 0 {
                assert(r@ =~= dv.take(1)[0]);
            }
        }
        i = i + 1;
    }
    assert(dv.take(parts.len() as int) =~= dv);
    r
}

/// ASCII letters and digits.
pub open spec fn is_ascii_alnum(c: char) -> bool {
    ('a' <= c <= 'z') || ('A' <= c <= 'Z') || ('0' <= c <= '9')
}

/// Executable test for ASCII letters and digits.
pub fn char_is_ascii_alnum(c: char) -> (b: bool)
    ensures
        b == is_ascii_alnum(c),
{
    ('a' <= c && c <= 'z') || ('A' <= c && c <= 'Z') || ('0' <= c && c <= '9')
}

/// The decimal digit for `d < 10`.
pub open spec fn digit_char(d: nat) -> char {
    (48 + d) as char
}

/// The decimal spelling of `n`, as `format!("{}", n)` gives it.
pub open spec fn decimal(n: nat) -> Seq<char>
    decreases n,
{
    if n < 10 {
        seq![digit_char(n)]
    } else {
        decimal(n / 10).push(digit_char(n % 10))
    }
}

/// Appends the decimal spelling of `n` to `s`.
pub fn push_decimal(s: &mut String, n: usize)
    ensures
        final(s)@ == old(s)@ + decimal(n as nat),
    decreases n,
{
    if n >= 10 {
        push_decimal(s, n / 10);
    }
    let d = (n % 10) as u8;
    let c = (48u8 + d) as char;
    assert(c == digit_char((n % 10) as nat));
    push_char(s, c);
    assert(s@ =~= old(s)@ + decimal(n as nat));
}

/// The lowercase hexadecimal digit for `d < 16`.
pub open spec fn hex_char(d: nat) -> char {
    if d < 10 {
        (48 + d) as char
    } else {
        (87 + d) as char
    }
}

/// The last `k` hexadecimal digits of `n`, zero-padded, as `format!("{:016x}", n)` gives
/// them for `k == 16`.
pub open spec fn hex_digits(n: nat, k: nat) -> Seq<char>
    decreases k,
{
    if k == 0 {
        Seq::empty()
    } else {
        hex_digits(n / 16, (k - 1) as nat).push(hex_char(n % 16))
    }
}

/// Appends the last `k` hexadecimal digits of `n` to `s`.
pub fn push_hex(s: &mut String, n: u64, k: u8)
    ensures
        final(s)@ == old(s)@ + hex_digits(n as nat, k as nat),
    decreases k,
{
    if k > 0 {
        push_hex(s, n / 16, k - 1);
        let d = (n % 16) as u8;
        let c = if d < 10 {
            (48u8 + d) as char
        } else {
            (87u8 + d) as char
        };
        assert(c == hex_char((n % 16) as nat));
        push_char(s, c);
        assert(s@ =~= old(s)@ + hex_digits(n as nat, k as nat));
    } else {
        assert(s@ =~= old(s)@ + hex_digits(n as nat, k as nat));
    }
}

/// What `str::to_lowercase` returns for a string: lowercase by the Unicode
/// `Lowercase` mapping, which takes tables to state.
pub uninterp spec fn spec_to_lowercase(s: Seq<char>) -> Seq<char>;

/// An ASCII character.
pub open spec fn is_ascii_char(c: char) -> bool {
    (c as u32) < 128
}

/// The ASCII lowercase of `c`: `A`..`Z` become `a`..`z`, every other character is kept.
pub open spec fn ascii_lower(c: char) -> char {
    if 'A' <= c <= 'Z' {
        ((c as u32) + 32) as char
    } else {
        c
    }
}

/// Every character of `s` is ASCII.
pub open spec fn is_ascii_text(s: Seq<char>) -> bool {
    forall|i: int| 0 <= i < s.len() ==> is_ascii_char(#[trigger] s[i])
}

/// `s` with its ASCII capital letters lowercased.
pub open spec fn ascii_lowercase(s: Seq<char>) -> Seq<char> {
    s.map_values(|c: char| ascii_lower(c))
}

/// `s` lowercased as `str::to_lowercase` lowercases it: ASCII-wise where `s` is ASCII.
pub open spec fn lowercase_of(s: Seq<char>) -> Seq<char> {
    if is_ascii_text(s) {
        ascii_lowercase(s)
    } else {
        spec_to_lowercase(s)
    }
}

/// The words of an ASCII text are ASCII.
pub(crate) proof fn lemma_words_of_ascii(s: Seq<char>)
    requires
        is_ascii_text(s),
    ensures
        forall|w: int| 0 <= w < split_ws(s).len() ==> is_ascii_text(#[trigger] split_ws(s)[w]),
{
    lemma_ws_scan_ascii(s);
}

proof fn lemma_ws_scan_ascii(s: Seq<char>)
    requires
        is_ascii_text(s),
    ensures
        forall|w: int| 0 <= w < ws_scan(s).0.len() ==> is_ascii_text(#[trigger] ws_scan(s).0[w]),
        is_ascii_text(ws_scan(s).1),
    decreases s.len(),
{
    if s.len() > 0 {
        let d = s.drop_last();
        assert forall|i: int| 0 <= i < d.len() implies is_ascii_char(#[trigger] d[i]) by {
            assert(d[i] == s[i]);
        }
        lemma_ws_scan_ascii(d);
        let (done, cur) = ws_scan(d);
        assert(is_ascii_char(s[s.len() - 1]));
        if !is_ws(s.last()) {
            assert forall|i: int| 0 <= i < cur.push(s.last()).len() implies is_ascii_char(
                #[trigger] cur.push(s.last())[i],
            ) by {
                if i < cur.len() {
                    assert(cur.push(s.last())[i] == cur[i]);
                }
            }
        } else if cur.len() > 0 {
            assert forall|w: int| 0 <= w < done.push(cur).len() implies is_ascii_text(
                #[trigger] done.push(cur)[w],
            ) by {
                if w < done.len() {
                    assert(done.push(cur)[w] == done[w]);
                }
            }
        }
    }
}

/// Trimming an ASCII text leaves ASCII text.
pub(crate) proof fn lemma_trim_keeps_ascii(s: Seq<char>)
    requires
        is_ascii_text(s),
    ensures
        is_ascii_text(trim_non_alnum(s)),
{
    lemma_trim_start_keeps_ascii(s);
    lemma_trim_end_keeps_ascii(trim_start_non_alnum(s));
}

proof fn lemma_trim_start_keeps_ascii(s: Seq<char>)
    requires
        is_ascii_text(s),
    ensures
        is_ascii_text(trim_start_non_alnum(s)),
    decreases s.len(),
{
    if s.len() > 0 && !is_ascii_alnum(s[0]) {
        let d = s.drop_first();
        assert forall|i: int| 0 <= i < d.len() implies is_ascii_char(#[trigger] d[i]) by {
            assert(d[i] == s[i + 1]);
        }
        lemma_trim_start_keeps_ascii(d);
    }
}

proof fn lemma_trim_end_keeps_ascii(s: Seq<char>)
    requires
        is_ascii_text(s),
    ensures
        is_ascii_text(trim_end_non_alnum(s)),
    decreases s.len(),
{
    if s.len() > 0 && !is_ascii_alnum(s.last()) {
        let d = s.drop_last();
        assert forall|i: int| 0 <= i < d.len() implies is_ascii_char(#[trigger] d[i]) by {
            assert(d[i] == s[i]);
        }
        lemma_trim_end_keeps_ascii(d);
    }
}

/// Calls `str::to_lowercase`. The contract names its result `spec_to_lowercase` of the
/// argument, and states the documented case of ASCII text: each character is lowercased
/// ASCII-wise and the length is kept (the Unicode `Lowercase` mapping of an ASCII
/// character is its ASCII lowercase).
#[verifier::external_body]
pub(crate) fn to_lowercase(s: &str) -> (r: String)
    ensures
        r@ == spec_to_lowercase(s@),
        (forall|i: int| 0 <= i < s@.len() ==> is_ascii_char(#[trigger] s@[i])) ==> {
            &&& r@.len() == s@.len()
            &&& forall|i: int| 0 <= i < s@.len() ==> #[trigger] r@[i] == ascii_lower(s@[i])
        },
{
    s.to_lowercase()
}


/// No string sorts before itself.
pub proof fn lemma_lex_irreflexive(a: Seq<char>)
    ensures
        !lex_lt(a, a),
    decreases a.len(),
{
    if a.len() > 0 {
        lemma_lex_irreflexive(a.drop_first());
    }
}

/// The string order is asymmetric.
pub proof fn lemma_lex_asymmetric(a: Seq<char>, b: Seq<char>)
    ensures
        lex_lt(a, b) ==> !lex_lt(b, a),
    decreases a.len(),
{
    if a.len() > 0 && b.len() > 0 && a[0] == b[0] {
        lemma_lex_asymmetric(a.drop_first(), b.drop_first());
    }
}

/// The string order is transitive.
pub proof fn lemma_lex_transitive(a: Seq<char>, b: Seq<char>, c: Seq<char>)
    ensures
        lex_lt(a, b) && lex_lt(b, c) ==> lex_lt(a, c),
    decreases a.len(),
{
    if a.len() > 0 && b.len() > 0 && c.len() > 0 {
        lemma_lex_transitive(a.drop_first(), b.drop_first(), c.drop_first());
    }
}

/// Two different strings are ordered one way or the other.
pub proof fn lemma_lex_total(a: Seq<char>, b: Seq<char>)
    ensures
        a != b ==> lex_lt(a, b) || lex_lt(b, a),
    decreases a.len(),
{
    if a.len() > 0 && b.len() > 0 {
        if a[0] == b[0] {
            lemma_lex_total(a.drop_first(), b.drop_first());
            if a.drop_first() == b.drop_first() {
                assert(a =~= seq![a[0]] + a.drop_first());
                assert(b =~= seq![b[0]] + b.drop_first());
            }
        } else {
        }
    } else if a.len() == 0 && b.len() == 0 {
        assert(a =~= b);
    }
}


/// A vector holding `v[from..to]`.
pub fn subvec(v: &Vec<char>, from: usize, to: usize) -> (r: Vec<char>)
    requires
        from <= to <= v.len(),
    ensures
        r@ == v@.subrange(from as int, to as int),
{
    let mut r: Vec<char> = Vec::new();
    let mut i = from;
    while i < to
        invariant
            from <= i <= to <= v.len(),
            r@ == v@.subrange(from as int, i as int),
        decreases to - i,
    {
        r.push(v[i]);
        i = i + 1;
        assert(r@ =~= v@.subrange(from as int, i as int));
    }
    r
}

/// Whether the characters of `v` begin with those of the string `p`.
pub fn vec_starts_with(v: &Vec<char>, p: &str) -> (b: bool)
    ensures
        b == starts_with(v@, p@),
{
    let w = chars_of(p);
    matches_at_exec(v, &w, 0)
}

/// `s` without leading characters that are not ASCII letters or digits.
pub open spec fn trim_start_non_alnum(s: Seq<char>) -> Seq<char>
    decreases s.len(),
{
    if s.len() > 0 && !is_ascii_alnum(s[0]) {
        trim_start_non_alnum(s.drop_first())
    } else {
        s
    }
}

/// `s` without trailing characters that are not ASCII letters or digits.
pub open spec fn trim_end_non_alnum(s: Seq<char>) -> Seq<char>
    decreases s.len(),
{
    if s.len() > 0 && !is_ascii_alnum(s.last()) {
        trim_end_non_alnum(s.drop_last())
    } else {
        s
    }
}

/// `s` trimmed at both ends of everything but ASCII letters and digits, as
/// `str::trim_matches(|c: char| !c.is_ascii_alphanumeric())` gives it.
pub open spec fn trim_non_alnum(s: Seq<char>) -> Seq<char> {
    trim_end_non_alnum(trim_start_non_alnum(s))
}

proof fn lemma_trim_start_non_alnum_skip(s: Seq<char>, i: int)
    requires
        0 <= i <= s.len(),
        forall|j: int| 0 <= j < i ==> !is_ascii_alnum(#[trigger] s[j]),
    ensures
        trim_start_non_alnum(s) == trim_start_non_alnum(s.skip(i)),
    decreases i,
{
    if i > 0 {
        assert(s.drop_first().skip(i - 1) =~= s.skip(i));
        lemma_trim_start_non_alnum_skip(s.drop_first(), i - 1);
    } else {
        assert(s.skip(0) =~= s);
    }
}

proof fn lemma_trim_end_non_alnum_take(s: Seq<char>, k: int)
    requires
        0 <= k <= s.len(),
        forall|j: int| k <= j < s.len() ==> !is_ascii_alnum(#[trigger] s[j]),
    ensures
        trim_end_non_alnum(s) == trim_end_non_alnum(s.take(k)),
    decreases s.len() - k,
{
    if k < s.len() {
        assert(s.drop_last().take(k) =~= s.take(k));
        lemma_trim_end_non_alnum_take(s.drop_last(), k);
    } else {
        assert(s.take(k) =~= s);
    }
}

/// `s` trimmed at both ends of everything but ASCII letters and digits.
pub fn trim_non_alnum_str(s: &str) -> (r: String)
    ensures
        r@ == trim_non_alnum(s@),
{
    let v = chars_of(s);
    let mut a: usize = 0;
    while a < v.len() && !char_is_ascii_alnum(v[a])
        invariant
            a <= v.len(),
            v@ == s@,
            forall|j: int| 0 <= j < a ==> !is_ascii_alnum(#[trigger] v@[j]),
        decreases v.len() - a,
    {
        a = a + 1;
    }
    proof {
        lemma_trim_start_non_alnum_skip(v@, a as int);
        assert(trim_start_non_alnum(v@.skip(a as int)) == v@.skip(a as int));
    }
    let mut b: usize = v.len();
    while b > a && !char_is_ascii_alnum(v[b - 1])
        invariant
            a <= b <= v.len(),
            forall|j: int| b <= j < v.len() ==> !is_ascii_alnum(#[trigger] v@[j]),
        decreases b,
    {
        b = b - 1;
    }
    proof {
        let t = v@.skip(a as int);
        let k = (b - a) as int;
        assert forall|j: int| k <= j < t.len() implies !is_ascii_alnum(#[trigger] t[j]) by {
            assert(t[j] == v@[j + a]);
        }
        lemma_trim_end_non_alnum_take(t, k);
        assert(t.take(k) =~= v@.subrange(a as int, b as int));
        let u = t.take(k);
        if u.len() > 0 {
            assert(u.last() == v@[b - 1]);
        }
    }
    string_of_range(&v, a, b)
}

/// `s` with every character `from` replaced by `to`.
pub open spec fn replace_char(s: Seq<char>, from: char, to: char) -> Seq<char> {
    s.map_values(|c: char| if c == from { to } else { c })
}

/// `s` with every character `from` replaced by `to`.
pub fn replace_char_str(s: &str, from: char, to: char) -> (r: String)
    ensures
        r@ == replace_char(s@, from, to),
{
    let v = chars_of(s);
    let mut r = String::new();
    let mut i: usize = 0;
    while i < v.len()
        invariant
            i <= v.len(),
            v@ == s@,
            r@ == replace_char(s@.take(i as int), from, to),
        decreases v.len() - i,
    {
        let c = if v[i] == from {
            to
        } else {
            v[i]
        };
        push_char(&mut r, c);
        i = i + 1;
        assert(r@ =~= replace_char(s@.take(i as int), from, to));
    }
    assert(s@.take(v.len() as int) =~= s@);
    r
}

/// `s` with every character that is not an ASCII letter or digit replaced by `_`.
pub open spec fn underscore_non_alnum(s: Seq<char>) -> Seq<char> {
    s.map_values(|c: char| if is_ascii_alnum(c) { c } else { '_' })
}

/// `s` with every character that is not an ASCII letter or digit replaced by `_`.
pub fn underscore_non_alnum_str(s: &str) -> (r: String)
    ensures
        r@ == underscore_non_alnum(s@),
{
    let v = chars_of(s);
    let mut r = String::new();
    let mut i: usize = 0;
    while i < v.len()
        invariant
            i <= v.len(),
            v@ == s@,
            r@ == underscore_non_alnum(s@.take(i as int)),
        decreases v.len() - i,
    {
        let c = if char_is_ascii_alnum(v[i]) {
            v[i]
        } else {
            '_'
        };
        push_char(&mut r, c);
        i = i + 1;
        assert(r@ =~= underscore_non_alnum(s@.take(i as int)));
    }
    assert(s@.take(v.len() as int) =~= s@);
    r
}

/// The number of characters of `s`.
pub fn char_count(s: &str) -> (n: usize)
    ensures
        n == s@.len(),
{
    let v = chars_of(s);
    v.len()
}

} // verus!
