//! The per-file search task and the run pipeline.
//!
//! A task takes one file's bytes, matches every line, and yields the file's
//! console block (unless suppressed) together with its `FileStat`. The run
//! pipeline feeds every enumerated file through a task, collects the stats,
//! and derives the final report; callers that dispatch tasks to workers
//! concurrently get the same stats and report, since both are functions of
//! the pattern and the files alone.

use vstd::prelude::*;

use crate::aggregate::{
    aggregate, any_match, sum_counts, AggregateReport, FileStat, FileStatView, ResultAggregator,
};
use crate::matcher::{match_file, spec_lines, spec_match_count, spec_records, MatchRecord,
    MatchRecordView};
use crate::pattern::{Pattern, PatternView};

verus! {

/// One file's console block: the file's path and its match records, printed
/// as a unit so that blocks of different files never interleave.
pub struct FileBlock {
    pub path: Vec<u8>,
    pub records: Vec<MatchRecord>,
}

/// The mathematical content of a `FileBlock`.
pub ghost struct FileBlockView {
    pub path: Seq<u8>,
    pub records: Seq<MatchRecordView>,
}

impl View for FileBlock {
    type V = FileBlockView;

    open spec fn view(&self) -> FileBlockView {
        FileBlockView { path: self.path@, records: self.records.deep_view() }
    }
}

impl DeepView for FileBlock {
    type V = FileBlockView;

    open spec fn deep_view(&self) -> FileBlockView {
        self@
    }
}

/// Searches one file's contents: always yields the file's `FileStat`, and
/// yields its console block exactly when live output is wanted and the file
/// matched.
pub fn search_file(
    p: &Pattern,
    path: &[u8],
    contents: &[u8],
    pre: &[u8],
    post: &[u8],
    stats_only: bool,
) -> (r: (Option<FileBlock>, FileStat))
    ensures
        r.1@ == (FileStatView {
            path: path@,
            match_count: spec_match_count(p@, spec_lines(contents@)),
        }),
        r.0 is Some <==> !stats_only && spec_match_count(p@, spec_lines(contents@)) > 0,
        r.0 matches Some(b) ==> b.path@ == path@,
        (p@.ignore_case || p@.query.len() > 0) ==> (r.0 matches Some(b)
            ==> b.records.deep_view() == spec_records(
            p@,
            spec_lines(contents@),
            1,
            pre@,
            post@,
        )),
{
    let records = match_file(p, contents, pre, post);
    let match_count = records.len();
    let stat = FileStat { path: vstd::slice::slice_to_vec(path), match_count };
    if !stats_only && match_count > 0 {
        let block = FileBlock { path: vstd::slice::slice_to_vec(path), records };
        (Some(block), stat)
    } else {
        (None, stat)
    }
}

/// The `FileStat` contents that a run over these files collects, one per
/// file, in file order.
pub open spec fn spec_file_stats(p: PatternView, files: Seq<(Seq<u8>, Seq<u8>)>) -> Seq<
    FileStatView,
> {
    files.map_values(
        |f: (Seq<u8>, Seq<u8>)|
            FileStatView { path: f.0, match_count: spec_match_count(p, spec_lines(f.1)) },
    )
}

/// The console blocks a run over these files emits, in file order: one per
/// file with at least one match.
pub open spec fn spec_blocks(
    p: PatternView,
    files: Seq<(Seq<u8>, Seq<u8>)>,
    pre: Seq<u8>,
    post: Seq<u8>,
) -> Seq<FileBlockView>
    decreases files.len(),
{
    if files.len() == 0 {
        Seq::empty()
    } else {
        let rest = spec_blocks(p, files.drop_first(), pre, post);
        if spec_match_count(p, spec_lines(files[0].1)) > 0 {
            seq![
                FileBlockView {
                    path: files[0].0,
                    records: spec_records(p, spec_lines(files[0].1), 1, pre, post),
                },
            ] + rest
        } else {
            rest
        }
    }
}

/// Everything one run produces: the console blocks (empty in stats-only
/// mode), the per-file statistics, the "any match found" flag, and the
/// aggregate report, present exactly when something matched.
pub struct SearchOutcome {
    pub blocks: Vec<FileBlock>,
    pub stats: Vec<FileStat>,
    pub found: bool,
    pub report: Option<AggregateReport>,
}

/// Runs the whole search over the enumerated files, given as (path, contents)
/// pairs: one task per file, every task's stat collected, and the report
/// derived at the end. The statistics and the report depend only on the
/// pattern and the files, never on the suppression flag or on completion
/// order.
pub fn run_search(
    p: &Pattern,
    files: &Vec<(Vec<u8>, Vec<u8>)>,
    pre: &[u8],
    post: &[u8],
    stats_only: bool,
    elapsed_nanos: u64,
) -> (r: SearchOutcome)
    ensures
        r.stats.deep_view() == spec_file_stats(p@, files.deep_view()),
        r.found <==> any_match(spec_file_stats(p@, files.deep_view())),
        r.report is Some <==> r.found,
        r.report matches Some(rep) ==> rep.files == files@.len() && rep.total_matches
            == sum_counts(spec_file_stats(p@, files.deep_view())) && rep.elapsed_nanos
            == elapsed_nanos,
        stats_only ==> r.blocks@.len() == 0,
        !stats_only && (p@.ignore_case || p@.query.len() > 0) ==> r.blocks.deep_view()
            == spec_blocks(p@, files.deep_view(), pre@, post@),
{
    let ghost fdv = files.deep_view();
    let ghost all_stats = spec_file_stats(p@, fdv);
    let mut agg = ResultAggregator::new();
    let mut blocks: Vec<FileBlock> = Vec::new();
    let mut i: usize = 0;
    proof {
        assert(fdv.skip(0) =~= fdv);
        assert(agg.stats_seq() =~= all_stats.subrange(0, 0));
        assert(blocks.deep_view() =~~= Seq::<FileBlockView>::empty());
        assert(blocks.deep_view() + spec_blocks(p@, fdv, pre@, post@) =~~= spec_blocks(
            p@,
            fdv,
            pre@,
            post@,
        ));
    }
    while i < files.len()
        invariant
            i <= files@.len(),
            fdv == files.deep_view(),
            fdv.len() == files@.len(),
            all_stats == spec_file_stats(p@, fdv),
            agg.wf(),
            agg.stats_seq() == all_stats.subrange(0, i as int),
            stats_only ==> blocks@.len() == 0,
            !stats_only && (p@.ignore_case || p@.query.len() > 0) ==> spec_blocks(
                p@,
                fdv,
                pre@,
                post@,
            ) == blocks.deep_view() + spec_blocks(p@, fdv.skip(i as int), pre@, post@),
        decreases files@.len() - i,
    {
        let ghost ss = fdv.skip(i as int);
        let ghost bdv0 = blocks.deep_view();
        let file = &files[i];
        proof {
            assert(files.deep_view()[i as int] == files@[i as int].deep_view());
            assert(files@[i as int].deep_view() == (
                files@[i as int].0.deep_view(),
                files@[i as int].1.deep_view(),
            ));
            assert(files@[i as int].0.deep_view() =~= files@[i as int].0@);
            assert(files@[i as int].1.deep_view() =~= files@[i as int].1@);
            assert(ss[0] == fdv[i as int]);
            assert(ss.drop_first() =~= fdv.skip(i as int + 1));
        }
        let (block, stat) = search_file(
            p,
            file.0.as_slice(),
            file.1.as_slice(),
            pre,
            post,
            stats_only,
        );
        proof {
            assert(stat@ == all_stats[i as int]);
            assert(agg.stats_seq().push(stat@) =~= all_stats.subrange(0, i as int + 1));
        }
        agg.submit(stat);
        match block {
            Some(b) => {
                let ghost bv = b@;
                blocks.push(b);
                proof {
                    assert(blocks.deep_view() =~~= bdv0.push(bv));
                    if p@.ignore_case || p@.query.len() > 0 {
                        assert(bv == FileBlockView {
                            path: fdv[i as int].0,
                            records: spec_records(
                                p@,
                                spec_lines(fdv[i as int].1),
                                1,
                                pre@,
                                post@,
                            ),
                        });
                        assert(spec_blocks(p@, ss, pre@, post@) == seq![bv] + spec_blocks(
                            p@,
                            fdv.skip(i as int + 1),
                            pre@,
                            post@,
                        ));
                        assert(bdv0.push(bv) + spec_blocks(p@, fdv.skip(i as int + 1), pre@, post@)
                            =~~= bdv0 + (seq![bv] + spec_blocks(
                            p@,
                            fdv.skip(i as int + 1),
                            pre@,
                            post@,
                        )));
                    }
                }
            },
            None => {
                proof {
                    if !stats_only && (p@.ignore_case || p@.query.len() > 0) {
                        assert(spec_blocks(p@, ss, pre@, post@) == spec_blocks(
                            p@,
                            fdv.skip(i as int + 1),
                            pre@,
                            post@,
                        ));
                    }
                }
            },
        }
        i = i + 1;
    }
    proof {
        assert(all_stats.subrange(0, fdv.len() as int) =~= all_stats);
        assert(fdv.skip(fdv.len() as int) =~= Seq::<(Seq<u8>, Seq<u8>)>::empty());
        assert(spec_blocks(p@, Seq::<(Seq<u8>, Seq<u8>)>::empty(), pre@, post@)
            =~~= Seq::<FileBlockView>::empty());
        assert(blocks.deep_view() + Seq::<FileBlockView>::empty() =~~= blocks.deep_view());
    }
    let found = agg.found_any();
    let stats = agg.drain();
    let report = if found {
        Some(aggregate(&stats, elapsed_nanos))
    } else {
        None
    };
    SearchOutcome { blocks, stats, found, report }
}

/// The determinism law: two runs over the same pattern and the same files
/// collect the same per-file statistics and the same total, however their
/// tasks were scheduled.
pub proof fn lemma_runs_agree(
    p: PatternView,
    files: Seq<(Seq<u8>, Seq<u8>)>,
    s1: Seq<FileStatView>,
    s2: Seq<FileStatView>,
)
    requires
        s1 == spec_file_stats(p, files),
        s2 == spec_file_stats(p, files),
    ensures
        s1 == s2,
        sum_counts(s1) == sum_counts(s2),
        any_match(s1) == any_match(s2),
{
}

} // verus!
