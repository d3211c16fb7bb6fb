//! The line matcher: splits a file's bytes into lines, finds the lines the
//! pattern matches, and renders each matching line with every match span
//! wrapped in highlight markers.

use vstd::prelude::*;

use crate::pattern::{match_spans, pattern_matches, spans_wf, Pattern, PatternView};

verus! {

/// The line-feed byte that ends a line.
pub const LINE_FEED: u8 = 10;

/// The carriage-return byte, stripped when it stands just before a line feed.
pub const CARRIAGE_RETURN: u8 = 13;

/// The index of the first line feed in `t`, or `t.len()` if there is none.
pub open spec fn first_line_feed(t: Seq<u8>) -> int
    decreases t.len(),
{
    if t.len() == 0 {
        0
    } else if t[0] == LINE_FEED {
        0
    } else {
        1 + first_line_feed(t.drop_first())
    }
}

/// A line loses one trailing carriage return, if it has one.
pub open spec fn strip_carriage_return(l: Seq<u8>) -> Seq<u8> {
    if l.len() > 0 && l.last() == CARRIAGE_RETURN {
        l.drop_last()
    } else {
        l
    }
}

/// The lines of a text, split at line feeds; a carriage return just before a
/// line feed belongs to the terminator, and a final terminator is optional.
pub open spec fn spec_lines(t: Seq<u8>) -> Seq<Seq<u8>>
    decreases t.len(),
{
    if t.len() == 0 {
        Seq::empty()
    } else {
        let j = first_line_feed(t);
        if 0 <= j && j < t.len() {
            seq![strip_carriage_return(t.subrange(0, j))] + spec_lines(
                t.subrange(j + 1, t.len() as int),
            )
        } else {
            seq![t]
        }
    }
}

/// `first_line_feed` is the one index with no line feed before it and a line
/// feed (or the end of the text) at it.
pub proof fn lemma_first_line_feed(t: Seq<u8>, j: int)
    requires
        0 <= j <= t.len(),
        forall|k: int| 0 <= k < j ==> t[k] != LINE_FEED,
        j < t.len() ==> t[j] == LINE_FEED,
    ensures
        first_line_feed(t) == j,
    decreases j,
{
    if j == 0 {
        if t.len() > 0 {
            assert(t[0] == LINE_FEED);
        }
    } else {
        assert(t[0] != LINE_FEED);
        let rest = t.drop_first();
        assert forall|k: int| 0 <= k < j - 1 implies rest[k] != LINE_FEED by {
            assert(rest[k] == t[k + 1]);
        }
        if j - 1 < rest.len() {
            assert(rest[j - 1] == t[j]);
        }
        lemma_first_line_feed(rest, j - 1);
    }
}

/// Finds the first line feed at or after `from`, or the text's length.
pub fn find_line_feed(text: &[u8], from: usize) -> (j: usize)
    requires
        from <= text@.len(),
    ensures
        from <= j <= text@.len(),
        forall|k: int| from <= k < j ==> text@[k] != LINE_FEED,
        j < text@.len() ==> text@[j as int] == LINE_FEED,
{
    let n = text.len();
    let mut j = from;
    while j < n
        invariant
            from <= j <= n,
            n == text@.len(),
            forall|k: int| from <= k < j ==> text@[k] != LINE_FEED,
        decreases n - j,
    {
        if text[j] == LINE_FEED {
            return j;
        }
        j = j + 1;
    }
    j
}

/// Splits a text into its lines, exactly as `spec_lines` describes them.
pub fn split_lines(text: &[u8]) -> (r: Vec<Vec<u8>>)
    ensures
        r.deep_view() == spec_lines(text@),
{
    let n = text.len();
    let mut r: Vec<Vec<u8>> = Vec::new();
    let mut pos: usize = 0;
    proof {
        assert(text@.subrange(0, n as int) =~= text@);
        assert(r.deep_view() =~~= Seq::<Seq<u8>>::empty());
        assert(r.deep_view() + spec_lines(text@) =~~= spec_lines(text@));
    }
    while pos < n
        invariant
            pos <= n,
            n == text@.len(),
            r.deep_view() + spec_lines(text@.subrange(pos as int, n as int)) == spec_lines(
                text@,
            ),
        decreases n - pos,
    {
        let ghost suffix = text@.subrange(pos as int, n as int);
        let ghost dv0 = r.deep_view();
        let j = find_line_feed(text, pos);
        proof {
            assert forall|k: int| 0 <= k < j - pos implies suffix[k] != LINE_FEED by {
                assert(suffix[k] == text@[pos + k]);
            }
            if j - pos < suffix.len() {
                assert(suffix[j - pos] == text@[j as int]);
            }
            lemma_first_line_feed(suffix, j - pos);
        }
        if j == n {
            // No terminator on the last line: it is kept whole.
            let piece = vstd::slice::slice_to_vec(vstd::slice::slice_subrange(text, pos, n));
            proof {
                assert(piece.deep_view() =~= suffix);
                assert(spec_lines(suffix) == seq![suffix]);
            }
            r.push(piece);
            pos = n;
            proof {
                assert(r.deep_view() =~~= dv0.push(suffix));
                assert(text@.subrange(n as int, n as int) =~= Seq::<u8>::empty());
                assert(spec_lines(Seq::<u8>::empty()) =~~= Seq::<Seq<u8>>::empty());
                assert(dv0.push(suffix) + Seq::<Seq<u8>>::empty() =~~= dv0 + seq![suffix]);
                assert(dv0 + seq![suffix] =~~= dv0 + spec_lines(suffix));
            }
        } else {
            let end = if j > pos && text[j - 1] == CARRIAGE_RETURN {
                j - 1
            } else {
                j
            };
            let piece = vstd::slice::slice_to_vec(vstd::slice::slice_subrange(text, pos, end));
            let ghost line = suffix.subrange(0, j - pos);
            let ghost rest = suffix.subrange(j - pos + 1, suffix.len() as int);
            proof {
                assert(line =~= text@.subrange(pos as int, j as int));
                if j > pos && text@[j - 1] == CARRIAGE_RETURN {
                    assert(line.last() == text@[j - 1]);
                    assert(strip_carriage_return(line) =~= text@.subrange(pos as int, j - 1));
                } else {
                    if line.len() > 0 {
                        assert(line.last() == text@[j - 1]);
                    }
                    assert(strip_carriage_return(line) =~= line);
                }
                assert(piece.deep_view() =~= strip_carriage_return(line));
                assert(rest =~= text@.subrange(j + 1, n as int));
                assert(spec_lines(suffix) == seq![strip_carriage_return(line)] + spec_lines(
                    rest,
                ));
            }
            r.push(piece);
            pos = j + 1;
            proof {
                assert(r.deep_view() =~~= dv0.push(strip_carriage_return(line)));
                assert(dv0.push(strip_carriage_return(line)) + spec_lines(rest) =~~= dv0 + (seq![
                    strip_carriage_return(line),
                ] + spec_lines(rest)));
            }
        }
    }
    proof {
        assert(text@.subrange(pos as int, n as int) =~= Seq::<u8>::empty());
        assert(spec_lines(Seq::<u8>::empty()) =~~= Seq::<Seq<u8>>::empty());
        assert(r.deep_view() + Seq::<Seq<u8>>::empty() =~~= r.deep_view());
    }
    r
}

/// One line rendered from cursor `from` on: the text up to each match span is
/// kept as it is, and every span is wrapped between the two markers.
pub open spec fn spec_render(
    line: Seq<u8>,
    spans: Seq<(usize, usize)>,
    from: int,
    pre: Seq<u8>,
    post: Seq<u8>,
) -> Seq<u8>
    decreases spans.len(),
{
    if spans.len() == 0 {
        line.subrange(from, line.len() as int)
    } else {
        line.subrange(from, spans[0].0 as int) + pre + line.subrange(
            spans[0].0 as int,
            spans[0].1 as int,
        ) + post + spec_render(line, spans.drop_first(), spans[0].1 as int, pre, post)
    }
}

/// A whole line rendered with its match spans wrapped in the markers.
pub open spec fn rendered_line(
    line: Seq<u8>,
    spans: Seq<(usize, usize)>,
    pre: Seq<u8>,
    post: Seq<u8>,
) -> Seq<u8> {
    spec_render(line, spans, 0, pre, post)
}

/// Renders one line, wrapping each match span between `pre` and `post`.
pub fn render_line(line: &[u8], spans: &Vec<(usize, usize)>, pre: &[u8], post: &[u8]) -> (r: Vec<
    u8,
>)
    requires
        spans_wf(spans@, line@.len() as int),
    ensures
        r@ == rendered_line(line@, spans@, pre@, post@),
{
    let mut out: Vec<u8> = Vec::new();
    let mut cursor: usize = 0;
    let mut k: usize = 0;
    proof {
        assert(spans@.skip(0) =~= spans@);
        assert(Seq::<u8>::empty() + spec_render(line@, spans@, 0, pre@, post@) =~= spec_render(
            line@,
            spans@,
            0,
            pre@,
            post@,
        ));
    }
    while k < spans.len()
        invariant
            k <= spans@.len(),
            spans_wf(spans@, line@.len() as int),
            cursor <= line@.len(),
            k == 0 ==> cursor == 0,
            k > 0 ==> cursor == spans@[k as int - 1].1,
            rendered_line(line@, spans@, pre@, post@) == out@ + spec_render(
                line@,
                spans@.skip(k as int),
                cursor as int,
                pre@,
                post@,
            ),
        decreases spans@.len() - k,
    {
        let ghost out0 = out@;
        let ghost ss = spans@.skip(k as int);
        let (s, e) = spans[k];
        proof {
            assert(ss[0] == spans@[k as int]);
            if k > 0 {
                assert(spans@[k as int - 1].1 <= spans@[k as int].0);
            }
            assert(cursor <= s && s <= e <= line@.len());
            assert(ss.drop_first() =~= spans@.skip(k as int + 1));
        }
        let mut part = vstd::slice::slice_to_vec(vstd::slice::slice_subrange(line, cursor, s));
        out.append(&mut part);
        let mut marker = vstd::slice::slice_to_vec(pre);
        out.append(&mut marker);
        let mut hit = vstd::slice::slice_to_vec(vstd::slice::slice_subrange(line, s, e));
        out.append(&mut hit);
        let mut closer = vstd::slice::slice_to_vec(post);
        out.append(&mut closer);
        proof {
            assert(out@ =~= out0 + line@.subrange(cursor as int, s as int) + pre@ + line@.subrange(
                s as int,
                e as int,
            ) + post@);
            assert(spec_render(line@, ss, cursor as int, pre@, post@) == line@.subrange(
                cursor as int,
                s as int,
            ) + pre@ + line@.subrange(s as int, e as int) + post@ + spec_render(
                line@,
                spans@.skip(k as int + 1),
                e as int,
                pre@,
                post@,
            ));
            assert(out0 + spec_render(line@, ss, cursor as int, pre@, post@) =~= out@
                + spec_render(line@, spans@.skip(k as int + 1), e as int, pre@, post@));
        }
        cursor = e;
        k = k + 1;
    }
    let ghost out0 = out@;
    let mut tail = vstd::slice::slice_to_vec(
        vstd::slice::slice_subrange(line, cursor, line.len()),
    );
    out.append(&mut tail);
    proof {
        assert(spans@.skip(spans@.len() as int) =~= Seq::<(usize, usize)>::empty());
        assert(spec_render(
            line@,
            spans@.skip(spans@.len() as int),
            cursor as int,
            pre@,
            post@,
        ) == line@.subrange(cursor as int, line@.len() as int));
        assert(out@ =~= out0 + line@.subrange(cursor as int, line@.len() as int));
    }
    out
}

/// One matching line: its 1-based line number and its rendered text.
pub struct MatchRecord {
    pub line_number: usize,
    pub rendered: Vec<u8>,
}

/// The mathematical content of a `MatchRecord`.
pub ghost struct MatchRecordView {
    pub line_number: int,
    pub rendered: Seq<u8>,
}

impl View for MatchRecord {
    type V = MatchRecordView;

    open spec fn view(&self) -> MatchRecordView {
        MatchRecordView { line_number: self.line_number as int, rendered: self.rendered@ }
    }
}

impl DeepView for MatchRecord {
    type V = MatchRecordView;

    open spec fn deep_view(&self) -> MatchRecordView {
        self@
    }
}

/// How many of the lines the pattern matches.
pub open spec fn spec_match_count(p: PatternView, lines: Seq<Seq<u8>>) -> int
    decreases lines.len(),
{
    if lines.len() == 0 {
        0
    } else {
        (if pattern_matches(p, lines[0]) {
            1int
        } else {
            0int
        }) + spec_match_count(p, lines.drop_first())
    }
}

/// The records of the matching lines, in order, numbered from `first_line`.
pub open spec fn spec_records(
    p: PatternView,
    lines: Seq<Seq<u8>>,
    first_line: int,
    pre: Seq<u8>,
    post: Seq<u8>,
) -> Seq<MatchRecordView>
    decreases lines.len(),
{
    if lines.len() == 0 {
        Seq::empty()
    } else {
        let rest = spec_records(p, lines.drop_first(), first_line + 1, pre, post);
        if pattern_matches(p, lines[0]) {
            seq![
                MatchRecordView {
                    line_number: first_line,
                    rendered: rendered_line(lines[0], match_spans(p, lines[0]), pre, post),
                },
            ] + rest
        } else {
            rest
        }
    }
}

/// Some record in `recs` carries the line number `n`.
pub open spec fn has_record_for(recs: Seq<MatchRecordView>, n: int) -> bool {
    exists|a: int| 0 <= a < recs.len() && recs[a].line_number == n
}

/// The order law: a file's records carry strictly increasing line numbers,
/// each within the file's line range, and a line number is carried by some
/// record exactly when that line matches the pattern — no duplicates, no
/// omissions.
pub proof fn lemma_records_ordered(
    p: PatternView,
    lines: Seq<Seq<u8>>,
    first_line: int,
    pre: Seq<u8>,
    post: Seq<u8>,
)
    ensures
        forall|a: int|
            0 <= a < spec_records(p, lines, first_line, pre, post).len() ==> first_line
                <= #[trigger] spec_records(p, lines, first_line, pre, post)[a].line_number
                < first_line + lines.len(),
        forall|a: int, b: int|
            0 <= a < b < spec_records(p, lines, first_line, pre, post).len() ==> spec_records(
                p,
                lines,
                first_line,
                pre,
                post,
            )[a].line_number < spec_records(p, lines, first_line, pre, post)[b].line_number,
        forall|n: int|
            first_line <= n < first_line + lines.len() ==> (#[trigger] has_record_for(
                spec_records(p, lines, first_line, pre, post),
                n,
            ) <==> pattern_matches(p, lines[n - first_line])),
    decreases lines.len(),
{
    let recs = spec_records(p, lines, first_line, pre, post);
    if lines.len() == 0 {
        assert(recs.len() == 0);
    } else {
        let tail = lines.drop_first();
        let rest = spec_records(p, tail, first_line + 1, pre, post);
        lemma_records_ordered(p, tail, first_line + 1, pre, post);
        if pattern_matches(p, lines[0]) {
            assert(recs == seq![
                MatchRecordView {
                    line_number: first_line,
                    rendered: rendered_line(lines[0], match_spans(p, lines[0]), pre, post),
                },
            ] + rest);
            assert(recs[0].line_number == first_line);
            assert(forall|a: int| 1 <= a < recs.len() ==> recs[a] == #[trigger] rest[a - 1]);
        } else {
            assert(recs == rest);
        }
        assert forall|n: int| first_line <= n < first_line + lines.len() implies (
        has_record_for(recs, n) <==> pattern_matches(p, lines[n - first_line])) by {
            if n == first_line {
                if pattern_matches(p, lines[0]) {
                    assert(recs[0].line_number == n);
                    assert(has_record_for(recs, n));
                } else {
                    if has_record_for(recs, n) {
                        let a = choose|a: int| 0 <= a < recs.len() && recs[a].line_number == n;
                        assert(rest[a].line_number >= first_line + 1);
                    }
                }
            } else {
                assert(tail[n - (first_line + 1)] == lines[n - first_line]);
                if has_record_for(recs, n) {
                    let a = choose|a: int| 0 <= a < recs.len() && recs[a].line_number == n;
                    if pattern_matches(p, lines[0]) {
                        assert(a >= 1);
                        assert(rest[a - 1].line_number == n);
                        assert(has_record_for(rest, n));
                    } else {
                        assert(has_record_for(rest, n));
                    }
                }
                if has_record_for(rest, n) {
                    let b = choose|b: int| 0 <= b < rest.len() && rest[b].line_number == n;
                    if pattern_matches(p, lines[0]) {
                        assert(recs[b + 1].line_number == n);
                    } else {
                        assert(recs[b].line_number == n);
                    }
                    assert(has_record_for(recs, n));
                }
            }
        }
    }
}

/// Matches every line of a file against the pattern and returns one record
/// per matching line, in line order, each rendered with the given markers.
/// The number of records is the file's match count.
pub fn match_file(p: &Pattern, contents: &[u8], pre: &[u8], post: &[u8]) -> (r: Vec<MatchRecord>)
    ensures
        r@.len() == spec_match_count(p@, spec_lines(contents@)),
        p@.ignore_case || p@.query.len() > 0 ==> r.deep_view() == spec_records(
            p@,
            spec_lines(contents@),
            1,
            pre@,
            post@,
        ),
{
    let lines = split_lines(contents);
    let ghost l = spec_lines(contents@);
    let mut records: Vec<MatchRecord> = Vec::new();
    let mut i: usize = 0;
    proof {
        assert(l.skip(0) =~= l);
        assert(records.deep_view() =~~= Seq::<MatchRecordView>::empty());
        assert(records.deep_view() + spec_records(p@, l, 1, pre@, post@) =~~= spec_records(
            p@,
            l,
            1,
            pre@,
            post@,
        ));
    }
    while i < lines.len()
        invariant
            i <= lines@.len(),
            lines.deep_view() == l,
            spec_match_count(p@, l) == records@.len() + spec_match_count(p@, l.skip(i as int)),
            (p@.ignore_case || p@.query.len() > 0) ==> spec_records(p@, l, 1, pre@, post@)
                == records.deep_view() + spec_records(
                p@,
                l.skip(i as int),
                i as int + 1,
                pre@,
                post@,
            ),
        decreases lines@.len() - i,
    {
        let ghost dv0 = records.deep_view();
        let ghost ss = l.skip(i as int);
        let line = &lines[i];
        proof {
            assert(lines.deep_view()[i as int] == lines@[i as int].deep_view());
            assert(lines@[i as int].deep_view() =~= lines@[i as int]@);
            assert(l[i as int] == lines@[i as int]@);
            assert(ss[0] == l[i as int]);
            assert(ss.drop_first() =~= l.skip(i as int + 1));
        }
        let spans = p.find_spans(line.as_slice());
        if spans.len() > 0 {
            let rendered = render_line(line.as_slice(), &spans, pre, post);
            let rec = MatchRecord { line_number: i + 1, rendered };
            let ghost rv = rec@;
            records.push(rec);
            proof {
                assert(records.deep_view() =~~= dv0.push(rv));
                assert(spec_match_count(p@, ss) == 1 + spec_match_count(
                    p@,
                    l.skip(i as int + 1),
                ));
                if p@.ignore_case || p@.query.len() > 0 {
                    assert(spans@ == match_spans(p@, l[i as int]));
                    assert(rv == MatchRecordView {
                        line_number: i as int + 1,
                        rendered: rendered_line(
                            l[i as int],
                            match_spans(p@, l[i as int]),
                            pre@,
                            post@,
                        ),
                    });
                    assert(spec_records(p@, ss, i as int + 1, pre@, post@) == seq![rv]
                        + spec_records(p@, l.skip(i as int + 1), i as int + 2, pre@, post@));
                    assert(dv0.push(rv) + spec_records(
                        p@,
                        l.skip(i as int + 1),
                        i as int + 2,
                        pre@,
                        post@,
                    ) =~~= dv0 + (seq![rv] + spec_records(
                        p@,
                        l.skip(i as int + 1),
                        i as int + 2,
                        pre@,
                        post@,
                    )));
                }
            }
        } else {
            proof {
                assert(spec_match_count(p@, ss) == spec_match_count(p@, l.skip(i as int + 1)));
                if p@.ignore_case || p@.query.len() > 0 {
                    assert(spec_records(p@, ss, i as int + 1, pre@, post@) == spec_records(
                        p@,
                        l.skip(i as int + 1),
                        i as int + 2,
                        pre@,
                        post@,
                    ));
                }
            }
        }
        i = i + 1;
    }
    proof {
        assert(l.skip(l.len() as int) =~= Seq::<Seq<u8>>::empty());
        assert(spec_match_count(p@, Seq::<Seq<u8>>::empty()) == 0);
        assert(spec_records(p@, Seq::<Seq<u8>>::empty(), i as int + 1, pre@, post@)
            =~~= Seq::<MatchRecordView>::empty());
        assert(records.deep_view() + Seq::<MatchRecordView>::empty() =~~= records.deep_view());
    }
    records
}

} // verus!
