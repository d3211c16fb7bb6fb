//! The result aggregator: an append-only collection of per-file statistics
//! plus the "any match found" flag, and the derived aggregate report.
//!
//! Submission order is unspecified when workers run concurrently, so every
//! contract here is order-independent: the flag and the totals are functions
//! of which records were collected, not of when.

use vstd::prelude::*;

verus! {

/// One scanned file's outcome: its (resolved) path and how many of its lines
/// matched. Created once per scanned file and never mutated.
pub struct FileStat {
    pub path: Vec<u8>,
    pub match_count: usize,
}

/// The mathematical content of a `FileStat`.
pub ghost struct FileStatView {
    pub path: Seq<u8>,
    pub match_count: int,
}

impl View for FileStat {
    type V = FileStatView;

    open spec fn view(&self) -> FileStatView {
        FileStatView { path: self.path@, match_count: self.match_count as int }
    }
}

impl DeepView for FileStat {
    type V = FileStatView;

    open spec fn deep_view(&self) -> FileStatView {
        self@
    }
}

/// Some collected record has a positive match count.
pub open spec fn any_match(stats: Seq<FileStatView>) -> bool {
    exists|i: int| 0 <= i < stats.len() && stats[i].match_count > 0
}

/// The sum of the collected match counts.
pub open spec fn sum_counts(stats: Seq<FileStatView>) -> int
    decreases stats.len(),
{
    if stats.len() == 0 {
        0
    } else {
        stats[0].match_count + sum_counts(stats.drop_first())
    }
}

/// Collects one `FileStat` per scanned file and keeps the monotonic
/// "any match found" flag in step with them.
pub struct ResultAggregator {
    stats: Vec<FileStat>,
    found_any: bool,
}

impl ResultAggregator {
    /// The records collected so far.
    pub closed spec fn stats_seq(&self) -> Seq<FileStatView> {
        self.stats.deep_view()
    }

    /// The "any match found" flag.
    pub closed spec fn found(&self) -> bool {
        self.found_any
    }

    /// The flag agrees with the collected records.
    pub open spec fn wf(&self) -> bool {
        self.found() <==> any_match(self.stats_seq())
    }

    /// An empty collection with the flag unset.
    pub fn new() -> (r: ResultAggregator)
        ensures
            r.stats_seq() == Seq::<FileStatView>::empty(),
            !r.found(),
            r.wf(),
    {
        let r = ResultAggregator { stats: Vec::new(), found_any: false };
        proof {
            assert(r.stats.deep_view() =~~= Seq::<FileStatView>::empty());
        }
        r
    }

    /// Appends one record; the flag rises exactly when the record matched.
    pub fn submit(&mut self, stat: FileStat)
        requires
            old(self).wf(),
        ensures
            final(self).wf(),
            final(self).stats_seq() == old(self).stats_seq().push(stat@),
            final(self).found() == (old(self).found() || stat.match_count > 0),
    {
        let ghost dv0 = self.stats.deep_view();
        let ghost sv = stat@;
        if stat.match_count > 0 {
            self.found_any = true;
        }
        self.stats.push(stat);
        proof {
            assert(self.stats.deep_view() =~~= dv0.push(sv));
            let dv = dv0.push(sv);
            if self.found_any {
                if sv.match_count > 0 {
                    assert(dv[dv0.len() as int].match_count > 0);
                } else {
                    let i = choose|i: int| 0 <= i < dv0.len() && dv0[i].match_count > 0;
                    assert(dv[i].match_count > 0);
                }
            } else {
                assert forall|i: int| 0 <= i < dv.len() implies dv[i].match_count <= 0 by {
                    if i < dv0.len() {
                        assert(!any_match(dv0));
                        assert(!(0 <= i < dv0.len() && dv0[i].match_count > 0));
                    }
                }
            }
        }
    }

    /// Reads the flag.
    pub fn found_any(&self) -> (r: bool)
        ensures
            r == self.found(),
    {
        self.found_any
    }

    /// Hands the collected records out, once all submissions are done.
    pub fn drain(self) -> (r: Vec<FileStat>)
        ensures
            r.deep_view() == self.stats_seq(),
    {
        self.stats
    }
}

/// The flag law: for a well-formed aggregator the "any match found" flag is
/// set exactly when some collected record has a positive match count.
pub proof fn lemma_found_any_iff(agg: ResultAggregator)
    requires
        agg.wf(),
    ensures
        agg.found() <==> exists|i: int|
            0 <= i < agg.stats_seq().len() && agg.stats_seq()[i].match_count > 0,
{
}

/// The final tallies, derived once from the full collection when the run is
/// over: how many files produced a record, the total match count, and the
/// elapsed wall-clock time the caller measured.
pub struct AggregateReport {
    pub files: usize,
    pub total_matches: u128,
    pub elapsed_nanos: u64,
}

/// Computes the aggregate report from the collected records: the file count
/// is the number of records, the total is the sum of their match counts.
pub fn aggregate(stats: &Vec<FileStat>, elapsed_nanos: u64) -> (r: AggregateReport)
    ensures
        r.files == stats@.len(),
        r.total_matches == sum_counts(stats.deep_view()),
        r.elapsed_nanos == elapsed_nanos,
{
    let ghost dv = stats.deep_view();
    let ghost m = usize::MAX as u128;
    let mut total: u128 = 0;
    let mut i: usize = 0;
    proof {
        assert(dv.skip(0) =~= dv);
    }
    while i < stats.len()
        invariant
            i <= stats@.len(),
            dv == stats.deep_view(),
            sum_counts(dv) == total + sum_counts(dv.skip(i as int)),
            total <= (i as u128) * m,
            m == usize::MAX as u128,
        decreases stats@.len() - i,
    {
        let ghost ss = dv.skip(i as int);
        let c = stats[i].match_count;
        proof {
            assert(stats.deep_view()[i as int] == stats@[i as int].deep_view());
            assert(ss[0] == dv[i as int]);
            assert(ss.drop_first() =~= dv.skip(i as int + 1));
            assert(c as u128 <= m);
            assert((i as u128) * m + m == ((i as u128) + 1) * m) by (nonlinear_arith);
            assert(((i as u128) + 1) * m <= m * m) by (nonlinear_arith)
                requires
                    (i as u128) + 1 <= m,
                    0 <= m,
            ;
            assert(m * m < u128::MAX) by (nonlinear_arith)
                requires
                    m <= 0xffff_ffff_ffff_ffffu128,
            ;
        }
        total = total + (c as u128);
        i = i + 1;
    }
    proof {
        assert(dv.skip(dv.len() as int) =~= Seq::<FileStatView>::empty());
        assert(sum_counts(Seq::<FileStatView>::empty()) == 0);
    }
    AggregateReport { files: stats.len(), total_matches: total, elapsed_nanos }
}

} // verus!
