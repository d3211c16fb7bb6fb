use minigrep::aggregate::{aggregate, FileStat, ResultAggregator};
use minigrep::matcher::{match_file, render_line, split_lines};
use minigrep::pattern::Pattern;
use minigrep::search::run_search;
use minigrep::Config;

fn files(entries: &[(&str, &str)]) -> Vec<(Vec<u8>, Vec<u8>)> {
    entries
        .iter()
        .map(|(p, c)| (p.as_bytes().to_vec(), c.as_bytes().to_vec()))
        .collect()
}

#[test]
fn config_build_keeps_fields() {
    let c = Config::build("foo".to_string(), ".".to_string(), true, false);
    assert_eq!(c.query, "foo");
    assert_eq!(c.file_path, ".");
    assert!(c.ignore_case);
    assert!(!c.stats_only);
}

#[test]
fn split_lines_basic() {
    let r = split_lines(b"foo\nbar foo\nbaz");
    assert_eq!(r, vec![b"foo".to_vec(), b"bar foo".to_vec(), b"baz".to_vec()]);
}

#[test]
fn split_lines_trailing_newline_and_crlf() {
    let r = split_lines(b"a\r\nb\n");
    assert_eq!(r, vec![b"a".to_vec(), b"b".to_vec()]);
    let r = split_lines(b"");
    assert!(r.is_empty());
    let r = split_lines(b"\n\n");
    assert_eq!(r, vec![b"".to_vec(), b"".to_vec()]);
    // A carriage return not followed by a line feed stays in the line.
    let r = split_lines(b"a\rb");
    assert_eq!(r, vec![b"a\rb".to_vec()]);
}

#[test]
fn render_wraps_every_span() {
    let spans = vec![(4usize, 7usize)];
    let r = render_line(b"bar foo", &spans, b"[", b"]");
    assert_eq!(r, b"bar [foo]".to_vec());
    let spans = vec![(0usize, 3usize), (4usize, 7usize)];
    let r = render_line(b"foo foo", &spans, b"<", b">");
    assert_eq!(r, b"<foo> <foo>".to_vec());
}

#[test]
fn match_file_orders_and_renders() {
    let p = Pattern::compile("foo", false).unwrap();
    let recs = match_file(&p, b"foo\nbar foo\nbaz\nfoofoo", b"[", b"]");
    assert_eq!(recs.len(), 3);
    assert_eq!(recs[0].line_number, 1);
    assert_eq!(recs[0].rendered, b"[foo]".to_vec());
    assert_eq!(recs[1].line_number, 2);
    assert_eq!(recs[1].rendered, b"bar [foo]".to_vec());
    assert_eq!(recs[2].line_number, 4);
    assert_eq!(recs[2].rendered, b"[foo][foo]".to_vec());
}

#[test]
fn case_sensitive_by_default() {
    // "abc" must match "ABC" only when ignore-case is enabled.
    let p = Pattern::compile("abc", false).unwrap();
    assert!(!p.is_match(b"ABC"));
    assert!(p.is_match(b"xabcy"));
    let p = Pattern::compile("abc", true).unwrap();
    assert!(p.is_match(b"ABC"));
}

#[test]
fn ignore_case_matches_folded_line() {
    // Scenario: query "Foo", ignore-case, line "foo bar" is a match.
    let p = Pattern::compile("Foo", true).unwrap();
    assert!(p.is_match(b"foo bar"));
    let recs = match_file(&p, b"foo bar", b"[", b"]");
    assert_eq!(recs.len(), 1);
    assert_eq!(recs[0].rendered, b"[foo] bar".to_vec());
}

#[test]
fn query_is_literal_text_not_pattern_syntax() {
    let p = Pattern::compile("a.b", false).unwrap();
    assert!(p.is_match(b"xa.by"));
    assert!(!p.is_match(b"aXb"));
    let recs = match_file(&p, b"aXb\na.b", b"[", b"]");
    assert_eq!(recs.len(), 1);
    assert_eq!(recs[0].line_number, 2);
}

#[test]
fn empty_query_matches_every_line() {
    let p = Pattern::compile("", false).unwrap();
    let recs = match_file(&p, b"a\nb\nc", b"", b"");
    assert_eq!(recs.len(), 3);
}

#[test]
fn aggregator_flag_follows_counts() {
    let mut agg = ResultAggregator::new();
    assert!(!agg.found_any());
    agg.submit(FileStat { path: b"a".to_vec(), match_count: 0 });
    assert!(!agg.found_any());
    agg.submit(FileStat { path: b"b".to_vec(), match_count: 2 });
    assert!(agg.found_any());
    agg.submit(FileStat { path: b"c".to_vec(), match_count: 0 });
    assert!(agg.found_any());
    let stats = agg.drain();
    assert_eq!(stats.len(), 3);
    let rep = aggregate(&stats, 7);
    assert_eq!(rep.files, 3);
    assert_eq!(rep.total_matches, 2);
    assert_eq!(rep.elapsed_nanos, 7);
}

#[test]
fn scenario_one_file_two_matches() {
    // Root holds one file "x.txt" with lines foo / bar foo / baz, query "foo".
    let fs = files(&[("x.txt", "foo\nbar foo\nbaz")]);
    let out = run_search(
        &Pattern::compile("foo", false).unwrap(),
        &fs,
        b"[",
        b"]",
        false,
        0,
    );
    assert!(out.found);
    assert_eq!(out.stats.len(), 1);
    assert_eq!(out.stats[0].path, b"x.txt".to_vec());
    assert_eq!(out.stats[0].match_count, 2);
    let rep = out.report.unwrap();
    assert_eq!(rep.files, 1);
    assert_eq!(rep.total_matches, 2);
    assert_eq!(out.blocks.len(), 1);
    assert_eq!(out.blocks[0].records.len(), 2);
}

#[test]
fn scenario_no_matches_anywhere() {
    let fs = files(&[("a.txt", "alpha\nbeta"), ("b.txt", "gamma")]);
    let out = run_search(
        &Pattern::compile("zzz", false).unwrap(),
        &fs,
        b"[",
        b"]",
        false,
        0,
    );
    assert!(!out.found);
    assert!(out.report.is_none());
    assert!(out.blocks.is_empty());
    // Zero-match files still produce their stats.
    assert_eq!(out.stats.len(), 2);
    assert_eq!(out.stats[0].match_count, 0);
    assert_eq!(out.stats[1].match_count, 0);
}

#[test]
fn scenario_unreadable_file_is_skipped() {
    // A file whose read failed never reaches a task, so it contributes no
    // stat and the totals exclude it.
    let all = files(&[("ok.txt", "needle here"), ("gone.txt", "needle too")]);
    let readable = vec![all[0].clone()];
    let out = run_search(
        &Pattern::compile("needle", false).unwrap(),
        &readable,
        b"[",
        b"]",
        false,
        0,
    );
    assert!(out.found);
    assert_eq!(out.stats.len(), 1);
    let rep = out.report.unwrap();
    assert_eq!(rep.files, 1);
    assert_eq!(rep.total_matches, 1);
}

#[test]
fn scenario_stats_only_keeps_report() {
    let fs = files(&[("x.txt", "foo\nbar foo\nbaz"), ("y.txt", "nothing")]);
    let p = Pattern::compile("foo", false).unwrap();
    let live = run_search(&p, &fs, b"[", b"]", false, 0);
    let quiet = run_search(&p, &fs, b"[", b"]", true, 0);
    assert!(quiet.blocks.is_empty());
    assert!(!live.blocks.is_empty());
    // The statistics and the report are identical.
    assert_eq!(quiet.stats.len(), live.stats.len());
    for (a, b) in quiet.stats.iter().zip(live.stats.iter()) {
        assert_eq!(a.path, b.path);
        assert_eq!(a.match_count, b.match_count);
    }
    let (r1, r2) = (live.report.unwrap(), quiet.report.unwrap());
    assert_eq!(r1.files, r2.files);
    assert_eq!(r1.total_matches, r2.total_matches);
}

#[test]
fn repeated_runs_agree() {
    let fs = files(&[("a", "x\ny x\nz"), ("b", "x"), ("c", "none")]);
    let p = Pattern::compile("x", false).unwrap();
    let first = run_search(&p, &fs, b"[", b"]", false, 0);
    let second = run_search(&p, &fs, b"[", b"]", false, 0);
    assert_eq!(first.found, second.found);
    assert_eq!(first.stats.len(), second.stats.len());
    for (a, b) in first.stats.iter().zip(second.stats.iter()) {
        assert_eq!(a.path, b.path);
        assert_eq!(a.match_count, b.match_count);
    }
    assert_eq!(
        first.report.as_ref().unwrap().total_matches,
        second.report.as_ref().unwrap().total_matches
    );
}
