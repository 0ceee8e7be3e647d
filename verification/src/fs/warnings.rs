//! The naming-violation log: queries over its entries.
use vstd::prelude::*;

use crate::clock::{instant_lt, parse_rfc3339_instant, spec_rfc3339_instant};
use crate::text::{lex_lt, str_lt};
use crate::types::Warning;

verus! {

/// The timestamp `ts` lies strictly after the bound `bound`: in time, when both parse as
/// RFC 3339; in string order otherwise.
pub open spec fn after_bound(ts: Seq<char>, bound: Seq<char>) -> bool {
    match (spec_rfc3339_instant(bound), spec_rfc3339_instant(ts)) {
        (Some(b), Some(t)) => instant_lt(b, t),
        _ => lex_lt(bound, ts),
    }
}

/// A warning is reported for `since` when no bound is given, or when it was logged
/// strictly after the bound.
pub open spec fn reported_since(w: Warning, since: Option<Seq<char>>) -> bool {
    match since {
        None => true,
        Some(s) => after_bound(w.ts@, s),
    }
}

/// The warnings of `ws` reported for `since`, in log order.
pub open spec fn warnings_since(ws: Seq<Warning>, since: Option<Seq<char>>) -> Seq<Warning>
    decreases ws.len(),
{
    if ws.len() == 0 {
        Seq::empty()
    } else if reported_since(ws.last(), since) {
        warnings_since(ws.drop_last(), since).push(ws.last())
    } else {
        warnings_since(ws.drop_last(), since)
    }
}

/// Without a bound every logged warning is reported, in log order.
pub proof fn lemma_no_bound_reports_all(ws: Seq<Warning>)
    ensures
        warnings_since(ws, None) == ws,
    decreases ws.len(),
{
    if ws.len() > 0 {
        lemma_no_bound_reports_all(ws.drop_last());
        assert(ws.drop_last().push(ws.last()) =~= ws);
    }
}

/// A later bound reports no more: on a log whose timestamps all parse as RFC 3339, with
/// two bounds that parse and the second no earlier than the first, no more warnings are
/// reported after `later` than after `earlier`, and each warning reported after `later` is
/// stamped strictly later in time and is reported after `earlier` too.
pub proof fn lemma_later_bound_reports_subset(ws: Seq<Warning>, earlier: Seq<char>, later: Seq<char>)
    requires
        spec_rfc3339_instant(earlier) is Some,
        spec_rfc3339_instant(later) is Some,
        !instant_lt(spec_rfc3339_instant(later)->0, spec_rfc3339_instant(earlier)->0),
        forall|i: int| 0 <= i < ws.len() ==> spec_rfc3339_instant(#[trigger] ws[i].ts@) is Some,
    ensures
        warnings_since(ws, Some(later)).len() <= warnings_since(ws, Some(earlier)).len(),
        forall|i: int|
            0 <= i < warnings_since(ws, Some(later)).len() ==> {
                let w = #[trigger] warnings_since(ws, Some(later))[i];
                &&& spec_rfc3339_instant(w.ts@) is Some
                &&& instant_lt(spec_rfc3339_instant(later)->0, spec_rfc3339_instant(w.ts@)->0)
                &&& reported_since(w, Some(earlier))
            },
    decreases ws.len(),
{
    if ws.len() > 0 {
        assert forall|i: int| 0 <= i < ws.drop_last().len() implies spec_rfc3339_instant(#[trigger] ws.drop_last()[i].ts@) is Some by {
            assert(ws.drop_last()[i] == ws[i]);
        }
        lemma_later_bound_reports_subset(ws.drop_last(), earlier, later);
        assert(spec_rfc3339_instant(ws[ws.len() - 1].ts@) is Some);
    }
}

/// The view of an optional string bound.
pub open spec fn opt_view(o: Option<&str>) -> Option<Seq<char>> {
    match o {
        Some(s) => Some(s@),
        None => None,
    }
}

/// Get warnings, optionally only those logged strictly after the `since` timestamp (in
/// time, for RFC 3339 texts), from the warnings read from the log in order.
pub fn select_since(ws: Vec<Warning>, since: Option<&str>) -> (r: Vec<Warning>)
    ensures
        r@ == warnings_since(ws@, opt_view(since)),
{
    let ghost all = ws@;
    let bound = match since {
        Some(s) => parse_rfc3339_instant(s),
        None => None,
    };
    let mut out: Vec<Warning> = Vec::new();
    for w in it: ws
        invariant
            it.seq() == all,
            since matches Some(s) ==> bound == spec_rfc3339_instant(s@),
            out@ == warnings_since(all.take(it.index() as int), opt_view(since)),
    {
        proof {
            assert(all.take(it.index() + 1).drop_last() =~= all.take(it.index() as int));
        }
        let keep = match since {
            None => true,
            Some(s) => match (bound, parse_rfc3339_instant(w.ts.as_str())) {
                (Some(b), Some(t)) => b.0 < t.0 || (b.0 == t.0 && b.1 < t.1),
                _ => str_lt(s, w.ts.as_str()),
            },
        };
        if keep {
            out.push(w);
        }
    }
    assert(all.take(all.len() as int) =~= all);
    out
}

} // verus!
