//! Line-terminator classification and statistics.
//!
//! A terminator is one of three conventions: a lone `\n` (LF), the pair
//! `\r\n` (CRLF), or a `\r` not immediately followed by `\n` (CR).
//! [`FileStats`] counts the terminators of one file's content;
//! [`FileStatsAggregate`] folds per-file records into corpus totals.
//! Both levels compute a "dominant" convention by the same strict-majority
//! rule: the kind whose count strictly exceeds each of the other two, or
//! none when no kind has a strict majority (ties and the all-zero case).

use vstd::prelude::*;

verus! {

/// One line-terminator convention.
#[derive(Clone, Copy, Debug, PartialEq, Eq, Structural)]
pub enum LineSep {
    Lf,
    CrLf,
    Cr,
}

pub const CR_BYTE: u8 = 13;

pub const LF_BYTE: u8 = 10;

impl LineSep {
    /// The short textual tag of this convention.
    pub fn label(&self) -> (r: String)
        ensures
            self is Lf ==> r@ == "LF"@,
            self is CrLf ==> r@ == "CRLF"@,
            self is Cr ==> r@ == "CR"@,
    {
        match self {
            LineSep::Lf => "LF".to_owned(),
            LineSep::CrLf => "CRLF".to_owned(),
            LineSep::Cr => "CR".to_owned(),
        }
    }
}

/// The strict-majority rule: the kind whose count is strictly greater than
/// each of the other two, or `None` when no kind has a strict majority.
pub open spec fn spec_dominant(lf: nat, crlf: nat, cr: nat) -> Option<LineSep> {
    if crlf > lf && crlf > cr {
        Some(LineSep::CrLf)
    } else if lf > cr && lf > crlf {
        Some(LineSep::Lf)
    } else if cr > crlf && cr > lf {
        Some(LineSep::Cr)
    } else {
        None
    }
}

/// Computes the strict-majority dominant convention from the three counts.
/// Both the per-file and the aggregate level use this same function.
pub fn dominant_of(lf: usize, crlf: usize, cr: usize) -> (r: Option<LineSep>)
    ensures
        r == spec_dominant(lf as nat, crlf as nat, cr as nat),
{
    if crlf > lf && crlf > cr {
        Some(LineSep::CrLf)
    } else if lf > cr && lf > crlf {
        Some(LineSep::Lf)
    } else if cr > crlf && cr > lf {
        Some(LineSep::Cr)
    } else {
        None
    }
}

/// The dominant convention is absent exactly when two or more of the three
/// counts tie for the maximum, including the all-zero case.
pub proof fn lemma_dominant_none_iff_tie(lf: nat, crlf: nat, cr: nat)
    ensures
        spec_dominant(lf, crlf, cr) is None <==> {
            let m = max3(lf, crlf, cr);
            (lf == m && crlf == m) || (lf == m && cr == m) || (crlf == m && cr == m)
        },
{
}

/// The largest of three counts.
pub open spec fn max3(a: nat, b: nat, c: nat) -> nat {
    if a >= b && a >= c {
        a
    } else if b >= c {
        b
    } else {
        c
    }
}

/// The terminator that begins at the head of `s`, if any: `\r\n` is CRLF,
/// a `\r` not followed by `\n` (including at the end) is CR, a `\n` is LF,
/// and any other byte is no terminator.
pub open spec fn sep_at_head(s: Seq<u8>) -> Option<LineSep> {
    if s.len() == 0 {
        None
    } else if s[0] == CR_BYTE {
        if s.len() >= 2 && s[1] == LF_BYTE {
            Some(LineSep::CrLf)
        } else {
            Some(LineSep::Cr)
        }
    } else if s[0] == LF_BYTE {
        Some(LineSep::Lf)
    } else {
        None
    }
}

/// How many bytes the head of `s` occupies under the classification rule:
/// two for a CRLF pair, one otherwise.
pub open spec fn head_step(s: Seq<u8>) -> int {
    if sep_at_head(s) == Some(LineSep::CrLf) {
        2
    } else {
        1
    }
}

/// How many terminators of kind `k` the classification rule finds in `s`.
pub open spec fn count_seps(s: Seq<u8>, k: LineSep) -> nat
    decreases s.len(),
{
    if s.len() == 0 {
        0
    } else {
        (if sep_at_head(s) == Some(k) {
            1nat
        } else {
            0nat
        }) + count_seps(s.skip(head_step(s)), k)
    }
}

/// How many terminators of any kind the classification rule finds in `s`.
pub open spec fn count_terminators(s: Seq<u8>) -> nat
    decreases s.len(),
{
    if s.len() == 0 {
        0
    } else {
        (if sep_at_head(s) is Some {
            1nat
        } else {
            0nat
        }) + count_terminators(s.skip(head_step(s)))
    }
}

/// The per-kind counts sum to the total number of terminator occurrences.
pub proof fn lemma_counts_sum(s: Seq<u8>)
    ensures
        count_seps(s, LineSep::Lf) + count_seps(s, LineSep::CrLf) + count_seps(s, LineSep::Cr)
            == count_terminators(s),
    decreases s.len(),
{
    if s.len() > 0 {
        lemma_counts_sum(s.skip(head_step(s)));
    }
}

/// The per-file record: the file's name, the count of terminators of each
/// kind, their total, and the dominant convention of the three counts.
#[derive(Debug)]
pub struct FileStats {
    pub name: String,
    pub lines: usize,
    pub crlf: usize,
    pub cr: usize,
    pub lf: usize,
    pub max: Option<LineSep>,
}

impl FileStats {
    /// The record's internal invariant: the total is the sum of the three
    /// counts, and the dominant field follows the strict-majority rule.
    pub open spec fn wf(&self) -> bool {
        &&& self.lines == self.lf + self.crlf + self.cr
        &&& self.max == spec_dominant(self.lf as nat, self.crlf as nat, self.cr as nat)
    }

    /// An empty record for the named file: all counts zero, no dominant.
    pub fn new(name: &str) -> (r: FileStats)
        ensures
            r.wf(),
            r.name@ == name@,
            r.lines == 0,
            r.crlf == 0,
            r.cr == 0,
            r.lf == 0,
            r.max is None,
    {
        FileStats {
            name: name.to_owned(),
            lines: 0,
            crlf: 0,
            cr: 0,
            lf: 0,
            max: None,
        }
    }

    /// Records one more terminator of kind `line` and recomputes the
    /// running dominant convention by the strict-majority rule.
    pub fn update(&mut self, line: LineSep)
        requires
            old(self).wf(),
            old(self).lines < usize::MAX,
        ensures
            final(self).wf(),
            final(self).name == old(self).name,
            final(self).lines == old(self).lines + 1,
            final(self).lf == old(self).lf + (if line is Lf { 1int } else { 0int }),
            final(self).crlf == old(self).crlf + (if line is CrLf { 1int } else { 0int }),
            final(self).cr == old(self).cr + (if line is Cr { 1int } else { 0int }),
    {
        self.lines = self.lines + 1;
        match line {
            LineSep::CrLf => {
                self.crlf = self.crlf + 1;
            },
            LineSep::Cr => {
                self.cr = self.cr + 1;
            },
            LineSep::Lf => {
                self.lf = self.lf + 1;
            },
        }
        self.max = dominant_of(self.lf, self.crlf, self.cr);
    }

    /// Scans one file's content left to right and returns its record: each
    /// count is exactly what the classification rule finds, the total is
    /// the number of terminator occurrences, and the dominant convention
    /// follows the strict-majority rule on the final counts.
    pub fn scan(name: &str, content: &[u8]) -> (r: FileStats)
        ensures
            r.wf(),
            r.name@ == name@,
            r.lf == count_seps(content@, LineSep::Lf),
            r.crlf == count_seps(content@, LineSep::CrLf),
            r.cr == count_seps(content@, LineSep::Cr),
            r.lines == count_terminators(content@),
    {
        broadcast use vstd::seq_lib::lemma_seq_skip_index, vstd::seq_lib::lemma_seq_skip_of_skip;

        let len = content.len();
        let mut stats = FileStats::new(name);
        let mut i: usize = 0;
        proof {
            assert(content@.skip(0) =~= content@);
        }
        while i < len
            invariant
                len == content@.len(),
                0 <= i <= len,
                stats.wf(),
                stats.name@ == name@,
                stats.lines <= i,
                stats.lf + count_seps(content@.skip(i as int), LineSep::Lf) == count_seps(
                    content@,
                    LineSep::Lf,
                ),
                stats.crlf + count_seps(content@.skip(i as int), LineSep::CrLf) == count_seps(
                    content@,
                    LineSep::CrLf,
                ),
                stats.cr + count_seps(content@.skip(i as int), LineSep::Cr) == count_seps(
                    content@,
                    LineSep::Cr,
                ),
                stats.lines + count_terminators(content@.skip(i as int)) == count_terminators(
                    content@,
                ),
            decreases len - i,
        {
            let ghost u = content@.skip(i as int);
            let byte = content[i];
            if byte == CR_BYTE {
                if i + 1 < len && content[i + 1] == LF_BYTE {
                    proof {
                        assert(sep_at_head(u) == Some(LineSep::CrLf));
                        assert(u.skip(2) =~= content@.skip(i + 2));
                    }
                    stats.update(LineSep::CrLf);
                    i = i + 2;
                } else {
                    proof {
                        assert(sep_at_head(u) == Some(LineSep::Cr));
                        assert(u.skip(1) =~= content@.skip(i + 1));
                    }
                    stats.update(LineSep::Cr);
                    i = i + 1;
                }
            } else if byte == LF_BYTE {
                proof {
                    assert(sep_at_head(u) == Some(LineSep::Lf));
                    assert(u.skip(1) =~= content@.skip(i + 1));
                }
                stats.update(LineSep::Lf);
                i = i + 1;
            } else {
                proof {
                    assert(sep_at_head(u) is None);
                    assert(u.skip(1) =~= content@.skip(i + 1));
                }
                i = i + 1;
            }
        }
        proof {
            assert(content@.skip(len as int) =~= Seq::<u8>::empty());
        }
        stats
    }
}

/// The sum of the LF counts of a sequence of per-file records.
pub open spec fn sum_lf(records: Seq<FileStats>) -> nat
    decreases records.len(),
{
    if records.len() == 0 {
        0
    } else {
        sum_lf(records.drop_last()) + records.last().lf as nat
    }
}

/// The sum of the CRLF counts of a sequence of per-file records.
pub open spec fn sum_crlf(records: Seq<FileStats>) -> nat
    decreases records.len(),
{
    if records.len() == 0 {
        0
    } else {
        sum_crlf(records.drop_last()) + records.last().crlf as nat
    }
}

/// The sum of the CR counts of a sequence of per-file records.
pub open spec fn sum_cr(records: Seq<FileStats>) -> nat
    decreases records.len(),
{
    if records.len() == 0 {
        0
    } else {
        sum_cr(records.drop_last()) + records.last().cr as nat
    }
}

/// The corpus-wide record: the ordered per-file records in processing
/// order, the sums of their counts, and the dominant convention of the
/// cumulative sums.
#[derive(Debug)]
pub struct FileStatsAggregate {
    pub stats: Vec<FileStats>,
    pub crlf: usize,
    pub cr: usize,
    pub lf: usize,
    pub max: Option<LineSep>,
    pub lines: usize,
}

impl FileStatsAggregate {
    /// The aggregate's internal invariant: each count is the exact sum of
    /// the per-file counts, the total is the sum of the three counts, and
    /// the dominant field follows the strict-majority rule on the sums.
    pub open spec fn wf(&self) -> bool {
        &&& self.lf == sum_lf(self.stats@)
        &&& self.crlf == sum_crlf(self.stats@)
        &&& self.cr == sum_cr(self.stats@)
        &&& self.lines == self.lf + self.crlf + self.cr
        &&& self.max == spec_dominant(self.lf as nat, self.crlf as nat, self.cr as nat)
    }

    /// The empty aggregate: no records, all counts zero, no dominant.
    pub fn new() -> (r: Self)
        ensures
            r.wf(),
            r.stats@ =~= Seq::<FileStats>::empty(),
            r.lines == 0,
            r.crlf == 0,
            r.cr == 0,
            r.lf == 0,
            r.max is None,
    {
        FileStatsAggregate {
            stats: Vec::new(),
            crlf: 0,
            cr: 0,
            lf: 0,
            max: None,
            lines: 0,
        }
    }

    /// Folds one per-file record into the aggregate: sums each count,
    /// appends the record, and recomputes the dominant convention from the
    /// new cumulative sums by the strict-majority rule.
    pub fn fold(accumulator: FileStatsAggregate, stat: FileStats) -> (r: FileStatsAggregate)
        requires
            accumulator.wf(),
            stat.wf(),
            accumulator.lines + stat.lines <= usize::MAX,
        ensures
            r.wf(),
            r.stats@ == accumulator.stats@.push(stat),
            r.lf == accumulator.lf + stat.lf,
            r.crlf == accumulator.crlf + stat.crlf,
            r.cr == accumulator.cr + stat.cr,
            r.lines == accumulator.lines + stat.lines,
    {
        let mut accumulator = accumulator;
        proof {
            assert(accumulator.stats@.push(stat).drop_last() =~= accumulator.stats@);
        }
        accumulator.crlf = accumulator.crlf + stat.crlf;
        accumulator.cr = accumulator.cr + stat.cr;
        accumulator.lf = accumulator.lf + stat.lf;
        accumulator.lines = accumulator.lines + stat.lines;
        accumulator.max = dominant_of(accumulator.lf, accumulator.crlf, accumulator.cr);
        accumulator.stats.push(stat);
        accumulator
    }

    /// The aggregate's dominant convention, used as the normalization
    /// target when the caller asks for the most frequent convention.
    pub fn max(&self) -> (r: Option<LineSep>)
        ensures
            r == self.max,
    {
        self.max
    }
}

/// Removing one record from a sequence removes exactly its contribution
/// from each sum.
proof fn lemma_sums_remove(records: Seq<FileStats>, j: int)
    requires
        0 <= j < records.len(),
    ensures
        sum_lf(records) == sum_lf(records.remove(j)) + records[j].lf,
        sum_crlf(records) == sum_crlf(records.remove(j)) + records[j].crlf,
        sum_cr(records) == sum_cr(records.remove(j)) + records[j].cr,
    decreases records.len(),
{
    if j == records.len() - 1 {
        assert(records.remove(j) =~= records.drop_last());
    } else {
        let shorter = records.drop_last();
        lemma_sums_remove(shorter, j);
        assert(records.remove(j).drop_last() =~= shorter.remove(j));
        assert(records.remove(j).last() == records.last());
    }
}

/// Two sequences of per-file records that hold the same records (as a
/// multiset, in any order) have the same cumulative sums, and therefore
/// the same dominant convention: the aggregate's result is independent of
/// the order the records are folded in.
pub proof fn lemma_fold_order_independent(s1: Seq<FileStats>, s2: Seq<FileStats>)
    requires
        s1.to_multiset() == s2.to_multiset(),
    ensures
        sum_lf(s1) == sum_lf(s2),
        sum_crlf(s1) == sum_crlf(s2),
        sum_cr(s1) == sum_cr(s2),
        spec_dominant(sum_lf(s1), sum_crlf(s1), sum_cr(s1)) == spec_dominant(
            sum_lf(s2),
            sum_crlf(s2),
            sum_cr(s2),
        ),
    decreases s1.len(),
{
    broadcast use vstd::seq_lib::group_to_multiset_ensures;

    if s1.len() == 0 {
        assert(s2.to_multiset().len() == 0);
    } else {
        let x = s1.last();
        assert(s1[s1.len() - 1] == x);
        assert(s1.contains(x));
        assert(s1.to_multiset().count(x) > 0);
        assert(s2.to_multiset().count(x) > 0);
        assert(s2.contains(x));
        let j = choose|j: int| 0 <= j < s2.len() && s2[j] == x;
        assert(s1.drop_last() =~= s1.remove(s1.len() - 1));
        assert(s1.remove(s1.len() - 1).to_multiset() == s1.to_multiset().remove(x));
        assert(s2.remove(j).to_multiset() == s2.to_multiset().remove(x));
        lemma_fold_order_independent(s1.drop_last(), s2.remove(j));
        lemma_sums_remove(s2, j);
    }
}

} // verus!
