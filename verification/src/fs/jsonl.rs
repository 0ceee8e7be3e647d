//! Line framing of append-only JSONL files.
use vstd::prelude::*;

use crate::text::{chars_of, string_of_range, trim, trim_bounds};

verus! {

/// Scans `s` line by line: the trimmed non-blank lines already closed by a newline,
/// and the text of the line still open.
pub open spec fn record_scan(s: Seq<char>) -> (Seq<Seq<char>>, Seq<char>)
    decreases s.len(),
{
    if s.len() == 0 {
        (Seq::empty(), Seq::empty())
    } else {
        let (done, cur) = record_scan(s.drop_last());
        if s.last() == '\n' {
            if trim(cur).len() > 0 {
                (done.push(trim(cur)), Seq::empty())
            } else {
                (done, Seq::empty())
            }
        } else {
            (done, cur.push(s.last()))
        }
    }
}

/// The records of a JSONL text: each line (as `str::lines` splits them) trimmed of
/// surrounding whitespace, blank lines left out, in file order.
pub open spec fn jsonl_records(s: Seq<char>) -> Seq<Seq<char>> {
    let (done, cur) = record_scan(s);
    if trim(cur).len() > 0 {
        done.push(trim(cur))
    } else {
        done
    }
}

/// The records of a JSONL text.
pub fn records(content: &str) -> (r: Vec<String>)
    ensures
        r.deep_view() == jsonl_records(content@),
{
    let v = chars_of(content);
    let mut done: Vec<String> = Vec::new();
    let mut cur: Vec<char> = Vec::new();
    let mut i: usize = 0;
    while i < v.len()
        invariant
            i <= v.len(),
            v@ == content@,
            (done.deep_view(), cur@) == record_scan(content@.take(i as int)),
        decreases v.len() - i,
    {
        proof {
            assert(content@.take(i + 1).drop_last() =~= content@.take(i as int));
        }
        if v[i] == '\n' {
            let (a, b) = trim_bounds(&cur);
            if a < b {
                let line = string_of_range(&cur, a, b);
                done.push(line);
                assert(done.deep_view() =~= record_scan(content@.take(i + 1)).0);
            }
            cur = Vec::new();
        } else {
            cur.push(v[i]);
        }
        i = i + 1;
    }
    assert(content@.take(v.len() as int) =~= content@);
    let (a, b) = trim_bounds(&cur);
    if a < b {
        let line = string_of_range(&cur, a, b);
        done.push(line);
        assert(done.deep_view() =~= jsonl_records(content@));
    }
    done
}

/// Scanning text without a newline only extends the open line.
pub proof fn lemma_scan_no_newline(c: Seq<char>, x: Seq<char>)
    requires
        !x.contains('\n'),
    ensures
        record_scan(c + x) == (record_scan(c).0, record_scan(c).1 + x),
    decreases x.len(),
{
    if x.len() == 0 {
        assert(c + x =~= c);
        assert(record_scan(c).1 + x =~= record_scan(c).1);
    } else {
        let y = x.drop_last();
        assert((c + x).drop_last() =~= c + y);
        assert(!y.contains('\n')) by {
            if y.contains('\n') {
                let k = choose|k: int| 0 <= k < y.len() && y[k] == '\n';
                assert(x[k] == '\n');
            }
        }
        lemma_scan_no_newline(c, y);
        assert(x.last() != '\n') by {
            assert(x[x.len() - 1] == x.last());
        }
        assert((record_scan(c).1 + y).push(x.last()) =~= record_scan(c).1 + x);
    }
}

/// Appending one complete line: the records read back are the old ones followed by the
/// new line (when it is not blank), provided the old text ended at a line boundary.
pub proof fn lemma_append_line(c: Seq<char>, line: Seq<char>)
    requires
        c.len() == 0 || c.last() == '\n',
        !line.contains('\n'),
    ensures
        jsonl_records(c) == record_scan(c).0,
        jsonl_records(c + line + seq!['\n']) == if trim(line).len() > 0 {
            jsonl_records(c).push(trim(line))
        } else {
            jsonl_records(c)
        },
{
    assert(record_scan(c).1 =~= Seq::<char>::empty()) by {
        if c.len() > 0 {
            assert(c[c.len() - 1] == c.last());
        }
    }
    assert(trim(Seq::<char>::empty()) =~= Seq::<char>::empty());
    lemma_scan_no_newline(c, line);
    let t = c + line + seq!['\n'];
    assert(t.drop_last() =~= c + line);
    assert(record_scan(c).1 + line =~= line);
    assert(t.last() == '\n');
}

} // verus!
