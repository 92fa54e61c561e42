//! The token stream adapter: validates what a tokenizer hands over and keeps
//! the tokens that matter for finding statement boundaries.

use crate::token::{SyntaxKind, Token};
use vstd::prelude::*;

verus! {

/// Each token's span is well formed, and tokens follow one another in source
/// order without overlapping.
pub open spec fn ordered(ts: Seq<Token>) -> bool {
    &&& forall|i: int| 0 <= i < ts.len() ==> (#[trigger] ts[i]).span.wf()
    &&& forall|i: int, j: int|
        0 <= i < j < ts.len() ==> (#[trigger] ts[i]).span.end <= (#[trigger] ts[j]).span.start
}

/// No token carries the end-of-input kind.
pub open spec fn no_sentinel(ts: Seq<Token>) -> bool {
    forall|i: int| 0 <= i < ts.len() ==> !((#[trigger] ts[i]).kind is Eof)
}

/// What a tokenizer may hand over: tokens in source order, none of them the
/// end-of-input sentinel.
pub open spec fn well_formed(ts: Seq<Token>) -> bool {
    ordered(ts) && no_sentinel(ts)
}

/// The predicate by which the adapter filters.
pub open spec fn keep() -> spec_fn(Token) -> bool {
    |t: Token| t.significant()
}

/// The filtered stream: the significant tokens of `ts`, in order.
pub open spec fn significant_tokens(ts: Seq<Token>) -> Seq<Token> {
    ts.filter(keep())
}

/// Byte offset at which a stream ends: the end of its last token, or 0.
pub open spec fn end_offset(ts: Seq<Token>) -> u32 {
    if ts.len() == 0 {
        0
    } else {
        ts.last().span.end
    }
}

/// Every token of `ts` is significant.
pub open spec fn all_significant(ts: Seq<Token>) -> bool {
    forall|i: int| 0 <= i < ts.len() ==> (#[trigger] ts[i]).significant()
}

/// Filtering keeps exactly the significant tokens, keeps them in source
/// order, and never moves the end of the stream forward.
pub proof fn lemma_significant_tokens(ts: Seq<Token>)
    requires
        well_formed(ts),
    ensures
        well_formed(significant_tokens(ts)),
        all_significant(significant_tokens(ts)),
        forall|j: int|
            0 <= j < significant_tokens(ts).len() ==> ts.contains(
                #[trigger] significant_tokens(ts)[j],
            ),
        forall|i: int|
            0 <= i < ts.len() && (#[trigger] ts[i]).significant() ==> significant_tokens(
                ts,
            ).contains(ts[i]),
        end_offset(significant_tokens(ts)) <= end_offset(ts),
    decreases ts.len(),
{
    reveal(Seq::filter);
    let f = significant_tokens(ts);
    if ts.len() > 0 {
        let init = ts.drop_last();
        let last = ts.last();
        let g = significant_tokens(init);
        assert forall|a: int, b: int| 0 <= a < b < init.len() implies (#[trigger] init[a]).span.end
            <= (#[trigger] init[b]).span.start by {
            assert(ts[a].span.end <= ts[b].span.start);
        }
        assert forall|a: int| 0 <= a < init.len() implies (#[trigger] init[a]).span.wf() && !(
        init[a].kind is Eof) by {
            assert(ts[a].span.wf());
        }
        lemma_significant_tokens(init);
        assert forall|j: int| 0 <= j < g.len() implies ts.contains(#[trigger] g[j]) && g[j].span.end
            <= last.span.start by {
            assert(init.contains(g[j]));
            let k = choose|k: int| 0 <= k < init.len() && init[k] == g[j];
            assert(ts[k] == g[j]);
            assert(ts[k].span.end <= ts[ts.len() - 1].span.start);
        }
        assert(ts[ts.len() - 1] == last);
        assert(last.span.wf());
        if last.significant() {
            assert(f == g.push(last));
            assert(f[f.len() - 1] == last);
        } else {
            assert(f == g);
            if g.len() > 0 {
                assert(g[g.len() - 1].span.end <= last.span.start);
            }
        }
        assert forall|i: int| 0 <= i < ts.len() && (#[trigger] ts[i]).significant() implies f.contains(
            ts[i],
        ) by {
            if i < init.len() {
                assert(init[i] == ts[i]);
                assert(g.contains(init[i]));
                let k = choose|k: int| 0 <= k < g.len() && g[k] == init[i];
                assert(f[k] == ts[i]);
            } else {
                assert(f[f.len() - 1] == ts[i]);
            }
        }
        assert forall|j: int| 0 <= j < f.len() implies ts.contains(#[trigger] f[j]) by {
            if j < g.len() {
                assert(f[j] == g[j]);
            }
        }
    }
}

/// Decides whether `tokens` is a well-formed stream.
pub fn check_stream(tokens: &Vec<Token>) -> (ok: bool)
    ensures
        ok == well_formed(tokens@),
{
    let n = tokens.len();
    let mut i: usize = 0;
    while i < n
        invariant
            n == tokens.len(),
            i <= n,
            well_formed(tokens@.take(i as int)),
        decreases n - i,
    {
        let t = &tokens[i];
        let bad = t.kind == SyntaxKind::Eof || t.span.start > t.span.end || (i > 0 && tokens[i
            - 1].span.end > t.span.start);
        if bad {
            proof {
                if well_formed(tokens@) {
                    assert(tokens@[i as int].span.wf());
                    if i > 0 {
                        assert(tokens@[i - 1].span.end <= tokens@[i as int].span.start);
                    }
                }
            }
            return false;
        }
        proof {
            let prev = tokens@.take(i as int);
            let next = tokens@.take(i + 1);
            assert forall|a: int, b: int| 0 <= a < b < next.len() implies (#[trigger] next[a]).span.end
                <= (#[trigger] next[b]).span.start by {
                if b < i {
                    assert(prev[a].span.end <= prev[b].span.start);
                } else if a < i - 1 {
                    assert(prev[a].span.end <= prev[i - 1].span.start);
                    assert(prev[i - 1].span.wf());
                }
            }
            assert forall|a: int| 0 <= a < next.len() implies (#[trigger] next[a]).span.wf() by {
                if a < i {
                    assert(prev[a].span.wf());
                }
            }
            assert forall|a: int| 0 <= a < next.len() implies !((#[trigger] next[a]).kind is Eof) by {
                if a < i {
                    assert(!(prev[a].kind is Eof));
                }
            }
        }
        i += 1;
    }
    assert(tokens@.take(n as int) =~= tokens@);
    true
}

/// Keeps the significant tokens of `tokens`, in order.
pub fn retain_significant(tokens: Vec<Token>) -> (kept: Vec<Token>)
    ensures
        kept@ == significant_tokens(tokens@),
{
    let ghost all = tokens@;
    let mut kept: Vec<Token> = Vec::new();
    proof {
        reveal(Seq::filter);
        assert(all.take(0).filter(keep()) =~= Seq::<Token>::empty());
    }
    for t in it: tokens
        invariant
            it.seq() == all,
            kept@ == all.take(it.index() as int).filter(keep()),
    {
        proof {
            reveal(Seq::filter);
            let k = it.index() as int;
            assert(all.take(k + 1).drop_last() =~= all.take(k));
            assert(all.take(k + 1).last() == t);
        }
        if t.is_significant() {
            kept.push(t);
        }
    }
    assert(all.take(all.len() as int) =~= all);
    kept
}

} // verus!
