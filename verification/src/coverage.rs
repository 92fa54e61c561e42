//! What holds of the statements that the splitter finds, for every document.

use crate::parser::common::{
    boundary_after, lemma_boundary_after_bounds, sourced, statements_from,
};
use crate::parser::{Session, Span};
use crate::range::ByteRange;
use crate::stream::{end_offset, lemma_significant_tokens, significant_tokens, well_formed};
use crate::token::Token;
use vstd::prelude::*;

verus! {

/// The byte ranges of `spans` over the stream `ts`: each from the start of
/// its first token to the end of its last.
pub open spec fn ranges_of(ts: Seq<Token>, spans: Seq<Span>) -> Seq<ByteRange> {
    Seq::new(
        spans.len(),
        |k: int|
            ByteRange { start: ts[spans[k].first].span.start, end: ts[spans[k].last].span.end },
    )
}

/// The byte range of each statement of a document, given its raw tokens: the
/// statements of the filtered stream, in order.
pub open spec fn statement_ranges(raw: Seq<Token>) -> Seq<ByteRange> {
    ranges_of(significant_tokens(raw), statements_from(significant_tokens(raw), 0))
}

/// The ranges are well formed, in source order, and do not overlap.
pub open spec fn disjoint_in_order(ranges: Seq<ByteRange>) -> bool {
    &&& forall|k: int| 0 <= k < ranges.len() ==> (#[trigger] ranges[k]).wf()
    &&& forall|k: int, m: int|
        0 <= k < m < ranges.len() ==> (#[trigger] ranges[k]).precedes(#[trigger] ranges[m])
}

/// No range reaches past the end of the document.
pub open spec fn within_document(raw: Seq<Token>, ranges: Seq<ByteRange>) -> bool {
    forall|k: int| 0 <= k < ranges.len() ==> (#[trigger] ranges[k]).end <= end_offset(raw)
}

/// `raw[i]` is a token that is not whitespace-like.
pub open spec fn content_at(raw: Seq<Token>, i: int) -> bool {
    0 <= i < raw.len() && !raw[i].kind.whitespace_like()
}

/// `span` lies inside one of the ranges.
pub open spec fn covered(span: ByteRange, ranges: Seq<ByteRange>) -> bool {
    exists|k: int| 0 <= k < ranges.len() && span.within(#[trigger] ranges[k])
}

/// Every token that is not whitespace-like lies inside one of the ranges, so
/// that the gaps between the ranges hold nothing but whitespace.
pub open spec fn covers_content(raw: Seq<Token>, ranges: Seq<ByteRange>) -> bool {
    forall|i: int| #[trigger] content_at(raw, i) ==> covered(raw[i].span, ranges)
}

/// A token that is not whitespace-like starts at `offset`.
pub open spec fn content_starts_at(raw: Seq<Token>, offset: u32) -> bool {
    exists|i: int| #[trigger] content_at(raw, i) && raw[i].span.start == offset
}

/// A token that is not whitespace-like ends at `offset`.
pub open spec fn content_ends_at(raw: Seq<Token>, offset: u32) -> bool {
    exists|i: int| #[trigger] content_at(raw, i) && raw[i].span.end == offset
}

/// Every range starts where a token that is not whitespace-like starts, and
/// ends where one ends: no range reaches into the whitespace around it.
pub open spec fn trimmed(raw: Seq<Token>, ranges: Seq<ByteRange>) -> bool {
    forall|k: int|
        0 <= k < ranges.len() ==> content_starts_at(raw, (#[trigger] ranges[k]).start)
            && content_ends_at(raw, ranges[k].end)
}

/// The tokens from `from` up to, not including, `to` hold no terminator and
/// no separator.
pub open spec fn plain_between(ts: Seq<Token>, from: int, to: int) -> bool {
    forall|i: int|
        from <= i < to ==> !((#[trigger] ts[i]).kind is Semicolon) && !(ts[i].kind is Newline)
}

/// `ts[i]` is a token that belongs to a statement: any token but a separator.
pub open spec fn in_statement(ts: Seq<Token>, i: int) -> bool {
    0 <= i < ts.len() && !(ts[i].kind is Newline)
}

/// Recovery stops at the first boundary: everything it steps over is plain,
/// and it ends behind a terminator, on a separator, or at the end of input.
pub proof fn lemma_boundary_is_first(ts: Seq<Token>, c: int)
    requires
        0 <= c <= ts.len(),
    ensures
        ({
            let b = boundary_after(ts, c);
            ||| b > c && ts[b - 1].kind is Semicolon && plain_between(ts, c, b - 1)
            ||| b < ts.len() && ts[b].kind is Newline && plain_between(ts, c, b)
            ||| b == ts.len() && plain_between(ts, c, b)
        }),
    decreases ts.len() - c,
{
    if c < ts.len() && !(ts[c].kind is Semicolon) && !(ts[c].kind is Newline) {
        lemma_boundary_is_first(ts, c + 1);
        lemma_boundary_after_bounds(ts, c + 1);
    }
}

/// The statements found from `c` on are exactly the maximal runs of tokens
/// between boundaries: they lie in the stream in order and apart from one
/// another, each holds no separator and no terminator but as its last token,
/// each ends at a boundary, and every token from `c` on that is not a
/// separator belongs to one of them.
pub proof fn lemma_statements_partition(ts: Seq<Token>, c: int)
    requires
        0 <= c <= ts.len(),
    ensures
        forall|k: int|
            0 <= k < statements_from(ts, c).len() ==> {
                let s = #[trigger] statements_from(ts, c)[k];
                &&& c <= s.first <= s.last < ts.len()
                &&& plain_between(ts, s.first, s.last)
                &&& !(ts[s.last].kind is Newline)
                &&& (ts[s.last].kind is Semicolon || s.last == ts.len() - 1 || ts[s.last
                    + 1].kind is Newline)
            },
        forall|k: int, m: int|
            0 <= k < m < statements_from(ts, c).len() ==> (#[trigger] statements_from(
                ts,
                c,
            )[k]).last < (#[trigger] statements_from(ts, c)[m]).first,
        forall|i: int|
            c <= i && #[trigger] in_statement(ts, i) ==> exists|k: int|
                0 <= k < statements_from(ts, c).len() && (#[trigger] statements_from(
                    ts,
                    c,
                )[k]).first <= i <= statements_from(ts, c)[k].last,
    decreases ts.len() - c,
{
    let all = statements_from(ts, c);
    if c >= ts.len() {
    } else if ts[c].kind is Newline {
        lemma_statements_partition(ts, c + 1);
    } else {
        let b = boundary_after(ts, c);
        lemma_boundary_after_bounds(ts, c);
        lemma_boundary_is_first(ts, c);
        lemma_statements_partition(ts, b);
        let head = Span { first: c, last: b - 1 };
        let rest = statements_from(ts, b);
        assert(all == seq![head] + rest);
        assert(all[0] == head);
        assert forall|k: int| 1 <= k < all.len() implies #[trigger] all[k] == rest[k - 1] by {}
        assert forall|k: int| 0 <= k < all.len() implies ({
            let s = #[trigger] all[k];
            &&& c <= s.first <= s.last < ts.len()
            &&& plain_between(ts, s.first, s.last)
            &&& !(ts[s.last].kind is Newline)
            &&& (ts[s.last].kind is Semicolon || s.last == ts.len() - 1 || ts[s.last
                + 1].kind is Newline)
        }) by {
            if k > 0 {
                assert(all[k] == rest[k - 1]);
            }
        }
        assert forall|k: int, m: int| 0 <= k < m < all.len() implies (#[trigger] all[k]).last < (
        #[trigger] all[m]).first by {
            assert(all[m] == rest[m - 1]);
            if k > 0 {
                assert(all[k] == rest[k - 1]);
            }
        }
        assert forall|i: int| c <= i && #[trigger] in_statement(ts, i) implies exists|k: int|
            0 <= k < all.len() && (#[trigger] all[k]).first <= i <= all[k].last by {
            if i < b {
                assert(all[0].first <= i <= all[0].last);
            } else {
                let k = choose|k: int|
                    0 <= k < rest.len() && (#[trigger] rest[k]).first <= i <= rest[k].last;
                assert(all[k + 1] == rest[k]);
                assert(all[k + 1].first <= i <= all[k + 1].last);
            }
        }
    }
}

/// The statement ranges are well formed, in source order and free of
/// overlaps, and they end inside the document.
proof fn lemma_ranges_in_order(raw: Seq<Token>)
    requires
        well_formed(raw),
    ensures
        disjoint_in_order(statement_ranges(raw)),
        within_document(raw, statement_ranges(raw)),
{
    let ts = significant_tokens(raw);
    let spans = statements_from(ts, 0);
    let ranges = statement_ranges(raw);
    lemma_significant_tokens(raw);
    lemma_statements_partition(ts, 0);
    assert forall|k: int| 0 <= k < ranges.len() implies (#[trigger] ranges[k]).wf() && ranges[k].end
        <= end_offset(raw) by {
        let s = spans[k];
        assert(ts[s.first].span.wf());
        assert(ts[s.last].span.wf());
        if s.first < s.last {
            assert(ts[s.first].span.end <= ts[s.last].span.start);
        }
        if s.last < ts.len() - 1 {
            assert(ts[s.last].span.end <= ts[ts.len() - 1].span.start);
            assert(ts[ts.len() - 1].span.wf());
        }
    }
    assert forall|k: int, m: int| 0 <= k < m < ranges.len() implies (#[trigger] ranges[k]).precedes(
        #[trigger] ranges[m],
    ) by {
        assert(spans[k].last < spans[m].first);
        assert(ts[spans[k].last].span.end <= ts[spans[m].first].span.start);
    }
}

/// Every token that is not whitespace-like lies in one of the statement
/// ranges.
proof fn lemma_ranges_cover(raw: Seq<Token>)
    requires
        well_formed(raw),
    ensures
        covers_content(raw, statement_ranges(raw)),
{
    let ts = significant_tokens(raw);
    let spans = statements_from(ts, 0);
    let ranges = statement_ranges(raw);
    lemma_significant_tokens(raw);
    lemma_statements_partition(ts, 0);
    assert forall|i: int| #[trigger] content_at(raw, i) implies covered(raw[i].span, ranges) by {
        assert(raw[i].significant());
        assert(ts.contains(raw[i]));
        let j = choose|j: int| 0 <= j < ts.len() && ts[j] == raw[i];
        assert(in_statement(ts, j));
        let k = choose|k: int|
            0 <= k < spans.len() && (#[trigger] spans[k]).first <= j <= spans[k].last;
        let s = spans[k];
        assert(ts[s.first].span.wf());
        assert(ts[s.last].span.wf());
        if s.first < j {
            assert(ts[s.first].span.end <= ts[j].span.start);
        }
        if j < s.last {
            assert(ts[j].span.end <= ts[s.last].span.start);
        }
        assert(raw[i].span.within(ranges[k]));
    }
}

/// Every statement range starts and ends with a token that is not
/// whitespace-like.
proof fn lemma_ranges_trimmed(raw: Seq<Token>)
    requires
        well_formed(raw),
    ensures
        trimmed(raw, statement_ranges(raw)),
{
    let ts = significant_tokens(raw);
    let spans = statements_from(ts, 0);
    let ranges = statement_ranges(raw);
    lemma_significant_tokens(raw);
    lemma_statements_partition(ts, 0);
    assert forall|k: int| 0 <= k < ranges.len() implies content_starts_at(
        raw,
        (#[trigger] ranges[k]).start,
    ) && content_ends_at(raw, ranges[k].end) by {
        let s = spans[k];
        assert(plain_between(ts, s.first, s.last));
        assert(ts[s.first].significant());
        assert(ts[s.last].significant());
        if s.first < s.last {
            assert(!(ts[s.first].kind is Newline));
        }
        assert(raw.contains(ts[s.first]));
        assert(raw.contains(ts[s.last]));
        let i = choose|i: int| 0 <= i < raw.len() && raw[i] == ts[s.first];
        let j = choose|j: int| 0 <= j < raw.len() && raw[j] == ts[s.last];
        assert(content_at(raw, i) && raw[i].span.start == ranges[k].start);
        assert(content_at(raw, j) && raw[j].span.end == ranges[k].end);
    }
}

/// For every document, the statement ranges are well formed, in source order
/// and free of overlaps; they end inside the document; every token that is
/// not whitespace-like lies in one of them, so the gaps hold only whitespace;
/// and no range reaches into the whitespace around its statement.
pub proof fn lemma_total_coverage(raw: Seq<Token>)
    requires
        well_formed(raw),
    ensures
        disjoint_in_order(statement_ranges(raw)),
        within_document(raw, statement_ranges(raw)),
        covers_content(raw, statement_ranges(raw)),
        trimmed(raw, statement_ranges(raw)),
{
    lemma_ranges_in_order(raw);
    lemma_ranges_cover(raw);
    lemma_ranges_trimmed(raw);
}

/// Where every closed statement starts on a token of the stream, the byte
/// ranges of the session are those of its spans over the stream: no span
/// reaches the sentinel.
pub proof fn lemma_byte_ranges(s: Session)
    requires
        s.wf(),
        s.resolvable(),
    ensures
        s.byte_ranges() == ranges_of(s.tokens, s.spans),
{
    assert(s.byte_ranges() =~= ranges_of(s.tokens, s.spans));
}

/// The dispatcher never leaves a statement that cannot be turned into a
/// byte range: run over a session that can be finished, it gives one that
/// can be finished.
pub proof fn lemma_source_keeps_resolvable(before: Session, after: Session)
    requires
        before.wf(),
        before.resolvable(),
        before.open is None,
        sourced(before, Ok(()), after),
    ensures
        after.resolvable(),
{
    let ts = before.tokens;
    let found = statements_from(ts, before.cursor);
    lemma_statements_partition(ts, before.cursor);
    assert forall|k: int| 0 <= k < after.spans.len() implies (#[trigger] after.spans[k]).first
        < after.tokens.len() && after.byte_range(after.spans[k]).wf() by {
        if k < before.spans.len() {
            assert(after.spans[k] == before.spans[k]);
            assert(before.byte_range(before.spans[k]).wf());
        } else {
            let s = found[k - before.spans.len()];
            assert(after.spans[k] == s);
            assert(ts[s.first].span.wf());
            assert(ts[s.last].span.wf());
            if s.first < s.last {
                assert(ts[s.first].span.end <= ts[s.last].span.start);
            }
        }
    }
}

/// No token of the stream is empty.
pub open spec fn no_empty_token(raw: Seq<Token>) -> bool {
    forall|i: int| 0 <= i < raw.len() ==> (#[trigger] raw[i]).span.start < raw[i].span.end
}

/// The token behind `raw[i]` starts where `raw[i]` ends.
pub open spec fn touches_next(raw: Seq<Token>, i: int) -> bool {
    raw[i].span.end == raw[i + 1].span.start
}

/// The tokens cover the text without a gap: the first starts at offset 0,
/// each starts where the one before it ends, and none is empty.
pub open spec fn tiles(raw: Seq<Token>) -> bool {
    &&& no_empty_token(raw)
    &&& raw.len() > 0 ==> raw[0].span.start == 0
    &&& forall|i: int| 0 <= i < raw.len() - 1 ==> #[trigger] touches_next(raw, i)
}

/// The byte at `offset` lies in one of the ranges.
pub open spec fn in_a_range(offset: int, ranges: Seq<ByteRange>) -> bool {
    exists|k: int| 0 <= k < ranges.len() && (#[trigger] ranges[k]).start <= offset < ranges[k].end
}

/// The byte at `offset` lies in a whitespace-like token.
pub open spec fn in_whitespace(offset: int, raw: Seq<Token>) -> bool {
    exists|i: int|
        0 <= i < raw.len() && (#[trigger] raw[i]).kind.whitespace_like() && raw[i].span.start
            <= offset < raw[i].span.end
}

/// Where no token is empty, no statement range is empty.
pub proof fn lemma_ranges_not_empty(raw: Seq<Token>)
    requires
        well_formed(raw),
        no_empty_token(raw),
    ensures
        forall|k: int|
            0 <= k < statement_ranges(raw).len() ==> (#[trigger] statement_ranges(raw)[k]).start
                < statement_ranges(raw)[k].end,
{
    let ts = significant_tokens(raw);
    let spans = statements_from(ts, 0);
    let ranges = statement_ranges(raw);
    lemma_significant_tokens(raw);
    lemma_statements_partition(ts, 0);
    assert forall|k: int| 0 <= k < ranges.len() implies (#[trigger] ranges[k]).start
        < ranges[k].end by {
        let s = spans[k];
        assert(raw.contains(ts[s.first]));
        let i = choose|i: int| 0 <= i < raw.len() && raw[i] == ts[s.first];
        assert(raw[i].span.start < raw[i].span.end);
        assert(ts[s.last].span.wf());
        if s.first < s.last {
            assert(ts[s.first].span.end <= ts[s.last].span.start);
        }
    }
}

/// In a stream that covers its text, every byte of the text lies in a token
/// from index `i` on, if it lies at or behind the start of `raw[i]`.
proof fn lemma_byte_in_token(raw: Seq<Token>, offset: int, i: int) -> (at: int)
    requires
        tiles(raw),
        0 <= i < raw.len(),
        raw[i].span.start <= offset < end_offset(raw),
    ensures
        i <= at < raw.len(),
        raw[at].span.start <= offset < raw[at].span.end,
    decreases raw.len() - i,
{
    if offset < raw[i].span.end {
        i
    } else {
        assert(raw[i].span.start < raw[i].span.end);
        assert(i < raw.len() - 1);
        assert(touches_next(raw, i));
        lemma_byte_in_token(raw, offset, i + 1)
    }
}

/// Where the tokens cover the text and none is empty, every byte of the
/// text that lies in no statement range lies in a whitespace-like token.
pub proof fn lemma_gaps_are_whitespace(raw: Seq<Token>)
    requires
        well_formed(raw),
        tiles(raw),
    ensures
        forall|offset: int|
            0 <= offset < end_offset(raw) ==> #[trigger] in_a_range(offset, statement_ranges(raw))
                || in_whitespace(offset, raw),
{
    let ranges = statement_ranges(raw);
    lemma_ranges_cover(raw);
    assert forall|offset: int| 0 <= offset < end_offset(raw) implies #[trigger] in_a_range(
        offset,
        ranges,
    ) || in_whitespace(offset, raw) by {
        let i = lemma_byte_in_token(raw, offset, 0);
        if raw[i].kind.whitespace_like() {
            assert(in_whitespace(offset, raw));
        } else {
            assert(content_at(raw, i));
            assert(covered(raw[i].span, ranges));
            let k = choose|k: int| 0 <= k < ranges.len() && raw[i].span.within(#[trigger] ranges[k]);
            assert(ranges[k].start <= offset < ranges[k].end);
        }
    }
}

/// Where no token is empty, a token that is not whitespace-like lies in one
/// statement range only.
pub proof fn lemma_one_range_per_token(raw: Seq<Token>, i: int, k: int, m: int)
    requires
        well_formed(raw),
        no_empty_token(raw),
        content_at(raw, i),
        0 <= k < statement_ranges(raw).len(),
        0 <= m < statement_ranges(raw).len(),
        raw[i].span.within(statement_ranges(raw)[k]),
        raw[i].span.within(statement_ranges(raw)[m]),
    ensures
        k == m,
{
    let ranges = statement_ranges(raw);
    lemma_ranges_in_order(raw);
    assert(raw[i].span.start < raw[i].span.end);
    if k < m {
        assert(ranges[k].precedes(ranges[m]));
    } else if m < k {
        assert(ranges[m].precedes(ranges[k]));
    }
}

/// From anywhere in a run of plain tokens that reaches the end of the
/// stream, or a terminator in its last place, recovery runs to the end.
proof fn lemma_plain_run(ts: Seq<Token>, c: int)
    requires
        0 <= c < ts.len(),
        plain_between(ts, 0, ts.len() - 1),
        !(ts.last().kind is Newline),
    ensures
        boundary_after(ts, c) == ts.len(),
    decreases ts.len() - c,
{
    if c < ts.len() - 1 {
        assert(!(ts[c].kind is Semicolon) && !(ts[c].kind is Newline));
        lemma_plain_run(ts, c + 1);
    } else {
        assert(ts[c] == ts.last());
        assert(boundary_after(ts, c + 1) == c + 1);
    }
}

/// A document that holds a single statement, with no blank line in it and no
/// terminator but in the last place, is split into exactly one range: from
/// the start of its first token that is not whitespace to the end of its
/// last.
pub proof fn lemma_single_statement(raw: Seq<Token>)
    requires
        well_formed(raw),
        significant_tokens(raw).len() > 0,
        plain_between(significant_tokens(raw), 0, significant_tokens(raw).len() - 1),
        !(significant_tokens(raw).last().kind is Newline),
    ensures
        statement_ranges(raw) == seq![
            (ByteRange {
                start: significant_tokens(raw).first().span.start,
                end: significant_tokens(raw).last().span.end,
            }),
        ],
{
    let ts = significant_tokens(raw);
    lemma_plain_run(ts, 0);
    assert(!(ts[0].kind is Newline));
    let spans = statements_from(ts, 0);
    assert(statements_from(ts, ts.len() as int) =~= Seq::<Span>::empty());
    assert(spans =~= seq![Span { first: 0, last: ts.len() - 1 }]);
    assert(statement_ranges(raw) =~= seq![
        (ByteRange { start: ts.first().span.start, end: ts.last().span.end }),
    ]);
}

/// A document that holds nothing but whitespace has no statements.
pub proof fn lemma_whitespace_only(raw: Seq<Token>)
    requires
        well_formed(raw),
        forall|i: int| 0 <= i < raw.len() ==> (#[trigger] raw[i]).kind.whitespace_like(),
    ensures
        statement_ranges(raw).len() == 0,
{
    let ts = significant_tokens(raw);
    lemma_significant_tokens(raw);
    assert forall|j: int| 0 <= j < ts.len() implies (#[trigger] ts[j]).kind is Newline by {
        assert(raw.contains(ts[j]));
        assert(ts[j].significant());
    }
    lemma_separators_only(ts, 0);
}

/// A stretch of separators holds no statement.
proof fn lemma_separators_only(ts: Seq<Token>, c: int)
    requires
        0 <= c <= ts.len(),
        forall|j: int| 0 <= j < ts.len() ==> (#[trigger] ts[j]).kind is Newline,
    ensures
        statements_from(ts, c).len() == 0,
    decreases ts.len() - c,
{
    if c < ts.len() {
        lemma_separators_only(ts, c + 1);
    }
}

} // verus!
