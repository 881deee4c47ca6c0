//! Classifying the lines of a source file and tallying the result.
//!
//! A line is blank, a `//` comment, part of a `/** ... */` block comment,
//! or code.  Classification is a pure state machine: the only state carried
//! from one line to the next is whether a block comment is still open.

use crate::render::dec_str;
use crate::render::left_aligned;
use crate::render::push_left_aligned_str;
use crate::render::push_repeat;
use crate::render::push_right_aligned_number;
use crate::render::push_right_aligned_str;
use crate::render::repeat_seq;
use crate::render::right_aligned;
use vstd::prelude::*;

verus! {

/// The category assigned to a single line of a file.
#[derive(Clone, Copy, Debug, PartialEq, Eq, Structural)]
pub enum Line {
    WhiteSpace(),
    Comment(),
    LongComment(),
    Code(),
}

/// A five-field tally of a file's (or a file set's) lines.
///
/// For every tally produced by [`FileSizeAnalyzer::count_lines`],
/// `total_lines` equals the sum of the four category fields.
#[derive(Clone, Copy, Debug, PartialEq, Eq, Structural)]
pub struct Count {
    pub total_lines: usize,
    pub white_lines: usize,
    pub comment_lines: usize,
    pub long_comment_lines: usize,
    pub code_lines: usize,
}

/// Whether `c` has Unicode's `White_Space` property: the characters that
/// `str::trim` strips from the ends of a line.
pub open spec fn is_white(c: char) -> bool {
    let n = c as u32;
    n == 0x9 || n == 0xA || n == 0xB || n == 0xC || n == 0xD || n == 0x20 || n == 0x85
        || n == 0xA0 || n == 0x1680 || (0x2000 <= n && n <= 0x200A) || n == 0x2028
        || n == 0x2029 || n == 0x202F || n == 0x205F || n == 0x3000
}

/// Executable test for [`is_white`].
fn is_white_char(c: char) -> (b: bool)
    ensures
        b == is_white(c),
{
    let n = c as u32;
    n == 0x9 || n == 0xA || n == 0xB || n == 0xC || n == 0xD || n == 0x20 || n == 0x85
        || n == 0xA0 || n == 0x1680 || (0x2000 <= n && n <= 0x200A) || n == 0x2028
        || n == 0x2029 || n == 0x202F || n == 0x205F || n == 0x3000
}

/// Index of the first character of `s` at or after `i` that is not white
/// space, or `s.len()` if there is none.
pub open spec fn first_non_white_at(s: Seq<char>, i: int) -> int
    decreases s.len() - i,
{
    if i < 0 || i >= s.len() {
        s.len() as int
    } else if !is_white(s[i]) {
        i
    } else {
        first_non_white_at(s, i + 1)
    }
}

/// Index just past the last character of `s` before `i` that is not white
/// space, or `0` if there is none.
pub open spec fn end_non_white_before(s: Seq<char>, i: int) -> int
    decreases i,
{
    if i <= 0 || i > s.len() {
        0
    } else if !is_white(s[i - 1]) {
        i
    } else {
        end_non_white_before(s, i - 1)
    }
}

/// `s` with leading and trailing white space removed: the model of
/// `str::trim`.
pub open spec fn trimmed(s: Seq<char>) -> Seq<char> {
    let lo = first_non_white_at(s, 0);
    let hi = end_non_white_before(s, s.len() as int);
    if lo >= hi {
        Seq::<char>::empty()
    } else {
        s.subrange(lo, hi)
    }
}

/// `p` is a prefix of `s`.
pub open spec fn begins_with(s: Seq<char>, p: Seq<char>) -> bool {
    p.len() <= s.len() && p =~= s.subrange(0, p.len() as int)
}

/// The classification state machine, as given one line of text and the
/// carried "inside a block comment" flag.  Returns the line's category and
/// the flag for the next line.  The rules apply, in order, to the line with
/// surrounding white space stripped:
/// a closing `*/` or `**/` marker wins over everything; a blank line is
/// blank and leaves the flag alone; an opening `/**` marker starts a block
/// comment; a line reached with the flag set continues one; `//` starts a
/// line comment; anything else is code.
pub open spec fn classify_line(line: Seq<char>, inside: bool) -> (Line, bool) {
    let t = trimmed(line);
    if begins_with(t, seq!['*', '*', '/']) || begins_with(t, seq!['*', '/']) {
        (Line::LongComment(), false)
    } else if t.len() == 0 {
        (Line::WhiteSpace(), inside)
    } else if begins_with(t, seq!['/', '*', '*']) {
        (Line::LongComment(), true)
    } else if inside {
        (Line::LongComment(), true)
    } else if begins_with(t, seq!['/', '/']) {
        (Line::Comment(), false)
    } else {
        (Line::Code(), false)
    }
}

/// Law: classification is deterministic.  Any two results obtained for
/// the same line text and the same carried flag are the same result.
pub proof fn lemma_classify_deterministic(
    line: Seq<char>,
    inside: bool,
    r1: (Line, bool),
    r2: (Line, bool),
)
    requires
        r1 == classify_line(line, inside),
        r2 == classify_line(line, inside),
    ensures
        r1 == r2,
{
}

proof fn lemma_first_non_white_at(s: Seq<char>, k: int, i: int)
    requires
        0 <= k <= i <= s.len(),
        forall|j: int| k <= j < i ==> is_white(s[j]),
        i == s.len() || !is_white(s[i]),
    ensures
        first_non_white_at(s, k) == i,
    decreases i - k,
{
    if k < i {
        lemma_first_non_white_at(s, k + 1, i);
    }
}

proof fn lemma_end_non_white_before(s: Seq<char>, k: int, i: int)
    requires
        0 <= i <= k <= s.len(),
        forall|j: int| i <= j < k ==> is_white(s[j]),
        i == 0 || !is_white(s[i - 1]),
    ensures
        end_non_white_before(s, k) == i,
    decreases k - i,
{
    if i < k {
        lemma_end_non_white_before(s, k - 1, i);
    }
}

/// The "inside a block comment" flag after classifying all of `lines` in
/// order, starting outside any block comment.
pub open spec fn final_state(lines: Seq<Seq<char>>) -> bool
    decreases lines.len(),
{
    if lines.len() == 0 {
        false
    } else {
        classify_line(lines.last(), final_state(lines.drop_last())).1
    }
}

/// How many of `lines` are classified blank, line comment, block comment
/// and code, in that order, when the state machine runs over them from the
/// start of a file.
pub open spec fn tally(lines: Seq<Seq<char>>) -> (int, int, int, int)
    decreases lines.len(),
{
    if lines.len() == 0 {
        (0, 0, 0, 0)
    } else {
        let prev = tally(lines.drop_last());
        match classify_line(lines.last(), final_state(lines.drop_last())).0 {
            Line::WhiteSpace() => (prev.0 + 1, prev.1, prev.2, prev.3),
            Line::Comment() => (prev.0, prev.1 + 1, prev.2, prev.3),
            Line::LongComment() => (prev.0, prev.1, prev.2 + 1, prev.3),
            Line::Code() => (prev.0, prev.1, prev.2, prev.3 + 1),
        }
    }
}

/// Each tally component is non-negative, and together they account for
/// every line exactly once.
pub proof fn lemma_tally_sum(lines: Seq<Seq<char>>)
    ensures
        tally(lines).0 >= 0,
        tally(lines).1 >= 0,
        tally(lines).2 >= 0,
        tally(lines).3 >= 0,
        tally(lines).0 + tally(lines).1 + tally(lines).2 + tally(lines).3 == lines.len(),
    decreases lines.len(),
{
    if lines.len() > 0 {
        lemma_tally_sum(lines.drop_last());
    }
}

/// The tally a file with lines `lines` should get: one `Count` whose
/// total is the number of lines and whose categories are [`tally`].
pub open spec fn count_of(lines: Seq<Seq<char>>) -> Count {
    Count {
        total_lines: lines.len() as usize,
        white_lines: tally(lines).0 as usize,
        comment_lines: tally(lines).1 as usize,
        long_comment_lines: tally(lines).2 as usize,
        code_lines: tally(lines).3 as usize,
    }
}

/// Field-by-field sum of a sequence of tallies, as unbounded integers in
/// field order: total, blank, line comment, block comment, code.
pub open spec fn sum_counts(counts: Seq<Count>) -> (int, int, int, int, int)
    decreases counts.len(),
{
    if counts.len() == 0 {
        (0, 0, 0, 0, 0)
    } else {
        let p = sum_counts(counts.drop_last());
        let c = counts.last();
        (
            p.0 + c.total_lines,
            p.1 + c.white_lines,
            p.2 + c.comment_lines,
            p.3 + c.long_comment_lines,
            p.4 + c.code_lines,
        )
    }
}

/// The sums of all five fields stay within `usize`: the machine-size
/// condition under which tallies can be merged.
pub open spec fn sum_fits(counts: Seq<Count>) -> bool {
    sum_counts(counts).0 <= usize::MAX && sum_counts(counts).1 <= usize::MAX && sum_counts(
        counts,
    ).2 <= usize::MAX && sum_counts(counts).3 <= usize::MAX && sum_counts(counts).4 <= usize::MAX
}

/// Summed tallies never go negative: every field of every `Count` is a
/// `usize`.
pub proof fn lemma_sum_counts_nonneg(counts: Seq<Count>)
    ensures
        sum_counts(counts).0 >= 0,
        sum_counts(counts).1 >= 0,
        sum_counts(counts).2 >= 0,
        sum_counts(counts).3 >= 0,
        sum_counts(counts).4 >= 0,
    decreases counts.len(),
{
    if counts.len() > 0 {
        lemma_sum_counts_nonneg(counts.drop_last());
    }
}

proof fn lemma_sum_counts_prefix_le(counts: Seq<Count>, i: int)
    requires
        0 <= i <= counts.len(),
    ensures
        sum_counts(counts.take(i)).0 <= sum_counts(counts).0,
        sum_counts(counts.take(i)).1 <= sum_counts(counts).1,
        sum_counts(counts.take(i)).2 <= sum_counts(counts).2,
        sum_counts(counts.take(i)).3 <= sum_counts(counts).3,
        sum_counts(counts.take(i)).4 <= sum_counts(counts).4,
    decreases counts.len() - i,
{
    if i == counts.len() {
        assert(counts.take(i) =~= counts);
    } else {
        assert(counts.take(i + 1).drop_last() =~= counts.take(i));
        lemma_sum_counts_prefix_le(counts, i + 1);
    }
}

/// Law: merging a concatenation sums the merges of the parts, so partial
/// aggregates (per-directory subtotals, say) can be merged again without
/// recomputing from raw files.
pub proof fn lemma_sum_counts_concat(a: Seq<Count>, b: Seq<Count>)
    ensures
        sum_counts(a + b).0 == sum_counts(a).0 + sum_counts(b).0,
        sum_counts(a + b).1 == sum_counts(a).1 + sum_counts(b).1,
        sum_counts(a + b).2 == sum_counts(a).2 + sum_counts(b).2,
        sum_counts(a + b).3 == sum_counts(a).3 + sum_counts(b).3,
        sum_counts(a + b).4 == sum_counts(a).4 + sum_counts(b).4,
    decreases b.len(),
{
    if b.len() == 0 {
        assert(a + b =~= a);
    } else {
        assert((a + b).drop_last() =~= a + b.drop_last());
        assert((a + b).last() == b.last());
        lemma_sum_counts_concat(a, b.drop_last());
    }
}

proof fn lemma_sum_counts_remove(s: Seq<Count>, j: int)
    requires
        0 <= j < s.len(),
    ensures
        sum_counts(s).0 == sum_counts(s.remove(j)).0 + s[j].total_lines,
        sum_counts(s).1 == sum_counts(s.remove(j)).1 + s[j].white_lines,
        sum_counts(s).2 == sum_counts(s.remove(j)).2 + s[j].comment_lines,
        sum_counts(s).3 == sum_counts(s.remove(j)).3 + s[j].long_comment_lines,
        sum_counts(s).4 == sum_counts(s.remove(j)).4 + s[j].code_lines,
    decreases s.len(),
{
    if j == s.len() - 1 {
        assert(s.remove(j) =~= s.drop_last());
    } else {
        assert(s.remove(j).drop_last() =~= s.drop_last().remove(j));
        assert(s.remove(j).last() == s.last());
        lemma_sum_counts_remove(s.drop_last(), j);
    }
}

/// Law: the merged tally does not depend on the order of the tallies.
/// Any two sequences holding the same tallies, however arranged, sum to
/// the same result.
pub proof fn lemma_sum_counts_permutation(a: Seq<Count>, b: Seq<Count>)
    requires
        a.to_multiset() == b.to_multiset(),
    ensures
        sum_counts(a) == sum_counts(b),
    decreases a.len(),
{
    broadcast use vstd::seq_lib::group_to_multiset_ensures;

    if a.len() == 0 {
        assert(a.to_multiset().len() == a.len());
        assert(b.to_multiset().len() == b.len());
        assert(b.len() == 0);
    } else {
        let x = a.last();
        assert(a.contains(x)) by {
            assert(a[a.len() - 1] == x);
        }
        assert(a.to_multiset().count(x) > 0);
        assert(b.to_multiset().count(x) > 0);
        assert(b.contains(x));
        let j = choose|j: int| 0 <= j < b.len() && b[j] == x;
        let b2 = b.remove(j);
        assert(b2.to_multiset() =~= b.to_multiset().remove(x));
        assert(a.drop_last().push(x) =~= a);
        assert(a.drop_last().push(x).to_multiset() =~= a.drop_last().to_multiset().insert(x));
        assert(a.drop_last().to_multiset() =~= b2.to_multiset()) by {
            assert(a.drop_last().to_multiset().insert(x).remove(x) =~= a.drop_last().to_multiset());
        }
        lemma_sum_counts_permutation(a.drop_last(), b2);
        lemma_sum_counts_remove(b, j);
    }
}

/// The per-file metric table for one tally, rendered as text: a fixed
/// frame around the five counters, each right-aligned in a five-wide
/// column.
pub open spec fn count_table(c: Count) -> Seq<char> {
    "+--------------------+-------+\n| Metric             | Count |\n+--------------------+-------+\n"@
        + "| Total lines        | "@ + right_aligned(dec_str(c.total_lines as int), 5)
        + " |\n| White lines        | "@ + right_aligned(dec_str(c.white_lines as int), 5)
        + " |\n| Comment lines      | "@ + right_aligned(dec_str(c.comment_lines as int), 5)
        + " |\n| Long comment lines | "@ + right_aligned(dec_str(c.long_comment_lines as int), 5)
        + " |\n| Code lines         | "@ + right_aligned(dec_str(c.code_lines as int), 5)
        + " |\n+--------------------+-------+\n"@
}

impl Count {
    /// Renders this tally as its metric table, one metric per row.
    pub fn print_summary(&self) -> (r: String)
        ensures
            r@ == count_table(*self),
    {
        let mut s = String::new();
        s.append(
            "+--------------------+-------+\n| Metric             | Count |\n+--------------------+-------+\n",
        );
        s.append("| Total lines        | ");
        push_right_aligned_number(&mut s, self.total_lines, 5);
        s.append(" |\n| White lines        | ");
        push_right_aligned_number(&mut s, self.white_lines, 5);
        s.append(" |\n| Comment lines      | ");
        push_right_aligned_number(&mut s, self.comment_lines, 5);
        s.append(" |\n| Long comment lines | ");
        push_right_aligned_number(&mut s, self.long_comment_lines, 5);
        s.append(" |\n| Code lines         | ");
        push_right_aligned_number(&mut s, self.code_lines, 5);
        s.append(" |\n+--------------------+-------+\n");
        proof {
            assert(s@ =~= count_table(*self));
        }
        s
    }

    /// Field-by-field sum of all the given tallies; the empty sequence
    /// merges to the all-zero tally.
    pub fn merge(counts: &Vec<Count>) -> (r: Count)
        requires
            sum_fits(counts@),
        ensures
            r.total_lines == sum_counts(counts@).0,
            r.white_lines == sum_counts(counts@).1,
            r.comment_lines == sum_counts(counts@).2,
            r.long_comment_lines == sum_counts(counts@).3,
            r.code_lines == sum_counts(counts@).4,
            counts@.len() == 0 ==> r == zero_count(),
    {
        let mut acc = Count {
            total_lines: 0,
            white_lines: 0,
            comment_lines: 0,
            long_comment_lines: 0,
            code_lines: 0,
        };
        let n = counts.len();
        let mut i: usize = 0;
        while i < n
            invariant
                n == counts@.len(),
                i <= n,
                sum_fits(counts@),
                acc.total_lines == sum_counts(counts@.take(i as int)).0,
                acc.white_lines == sum_counts(counts@.take(i as int)).1,
                acc.comment_lines == sum_counts(counts@.take(i as int)).2,
                acc.long_comment_lines == sum_counts(counts@.take(i as int)).3,
                acc.code_lines == sum_counts(counts@.take(i as int)).4,
            decreases n - i,
        {
            let c = counts[i];
            proof {
                assert(counts@.take(i + 1).drop_last() =~= counts@.take(i as int));
                assert(counts@.take(i + 1).last() == counts@[i as int]);
                lemma_sum_counts_prefix_le(counts@, i + 1);
                lemma_sum_counts_nonneg(counts@.take(i as int));
            }
            acc = Count {
                total_lines: acc.total_lines + c.total_lines,
                white_lines: acc.white_lines + c.white_lines,
                comment_lines: acc.comment_lines + c.comment_lines,
                long_comment_lines: acc.long_comment_lines + c.long_comment_lines,
                code_lines: acc.code_lines + c.code_lines,
            };
            i = i + 1;
        }
        proof {
            assert(counts@.take(n as int) =~= counts@);
        }
        acc
    }
}

/// The all-zero tally: what an empty file, or an empty set of files,
/// counts to.
pub open spec fn zero_count() -> Count {
    Count {
        total_lines: 0,
        white_lines: 0,
        comment_lines: 0,
        long_comment_lines: 0,
        code_lines: 0,
    }
}

/// Analyzes one file: remembers its path and the tally of its lines.
#[derive(Clone, Debug)]
pub struct FileSizeAnalyzer {
    pub path: String,
    pub count: Count,
}

impl Default for FileSizeAnalyzer {
    fn default() -> (d: Self)
        ensures
            d.path@ == Seq::<char>::empty(),
            d.count == zero_count(),
    {
        FileSizeAnalyzer {
            path: String::new(),
            count: Count {
                total_lines: 0,
                white_lines: 0,
                comment_lines: 0,
                long_comment_lines: 0,
                code_lines: 0,
            },
        }
    }
}

impl FileSizeAnalyzer {
    /// A fresh analyzer for the file at `path`, with an all-zero tally.
    pub fn new(path: String) -> (r: Self)
        ensures
            r.path@ == path@,
            r.count == zero_count(),
    {
        FileSizeAnalyzer {
            path,
            count: Count {
                total_lines: 0,
                white_lines: 0,
                comment_lines: 0,
                long_comment_lines: 0,
                code_lines: 0,
            },
        }
    }

    /// The computing half of analyzing a file: the caller reads the file's
    /// lines from disk, this records their tally.
    pub fn analyze_lines(&mut self, lines: &Vec<String>)
        ensures
            final(self).path == old(self).path,
            final(self).count == count_of(lines.deep_view()),
    {
        self.count = Self::count_lines(lines);
    }

    /// Renders this file's summary: a banner naming the path, then the
    /// metric table of its tally.
    pub fn print_single_summary(&self) -> (r: String)
        ensures
            r@ == single_summary(*self),
    {
        let mut s = String::from_str("File Summary for ");
        s.append(self.path.as_str());
        s.append(":\n");
        let table = self.count.print_summary();
        s.append(table.as_str());
        proof {
            assert(s@ =~= single_summary(*self));
        }
        s
    }

    /// Runs the classifier over a file's lines in order, counting each
    /// category, and returns the finished tally.  The total always equals
    /// the sum of the four categories.
    pub fn count_lines(lines: &Vec<String>) -> (r: Count)
        ensures
            r == count_of(lines.deep_view()),
            r.total_lines == r.white_lines + r.comment_lines + r.long_comment_lines
                + r.code_lines,
    {
        let ghost all = lines.deep_view();
        let mut total_lines: usize = 0;
        let mut white_lines: usize = 0;
        let mut comment_lines: usize = 0;
        let mut long_comment_lines: usize = 0;
        let mut code_lines: usize = 0;
        let mut trailing_comment = false;
        let n = lines.len();
        let mut i: usize = 0;
        while i < n
            invariant
                n == lines@.len(),
                all == lines.deep_view(),
                all.len() == n,
                i <= n,
                total_lines == i,
                white_lines == tally(all.take(i as int)).0,
                comment_lines == tally(all.take(i as int)).1,
                long_comment_lines == tally(all.take(i as int)).2,
                code_lines == tally(all.take(i as int)).3,
                trailing_comment == final_state(all.take(i as int)),
            decreases n - i,
        {
            let line: &String = &lines[i];
            let (line_type, is_trailing) = Self::line_processor(line.as_str(), trailing_comment);
            proof {
                assert(all.take(i + 1).drop_last() =~= all.take(i as int));
                assert(all.take(i + 1).last() == line@);
                lemma_tally_sum(all.take(i as int));
            }
            trailing_comment = is_trailing;
            match line_type {
                Line::WhiteSpace() => white_lines = white_lines + 1,
                Line::Comment() => comment_lines = comment_lines + 1,
                Line::LongComment() => long_comment_lines = long_comment_lines + 1,
                Line::Code() => code_lines = code_lines + 1,
            }
            total_lines = total_lines + 1;
            i = i + 1;
        }
        proof {
            assert(all.take(n as int) =~= all);
            lemma_tally_sum(all);
        }
        Count { total_lines, white_lines, comment_lines, long_comment_lines, code_lines }
    }

    /// Classifies one line given the carried "inside a block comment" flag,
    /// returning the category and the flag for the next line.
    pub fn line_processor(line: &str, trailing_comment: bool) -> (r: (Line, bool))
        ensures
            r == classify_line(line@, trailing_comment),
    {
        let n = line.unicode_len();
        let mut lo: usize = 0;
        while lo < n && is_white_char(line.get_char(lo))
            invariant
                n == line@.len(),
                lo <= n,
                forall|j: int| 0 <= j < lo ==> is_white(line@[j]),
            decreases n - lo,
        {
            lo = lo + 1;
        }
        proof {
            lemma_first_non_white_at(line@, 0, lo as int);
        }
        if lo == n {
            proof {
                lemma_end_non_white_before(line@, n as int, 0);
                assert(trimmed(line@).len() == 0);
            }
            return (Line::WhiteSpace(), trailing_comment);
        }
        let mut hi: usize = n;
        while is_white_char(line.get_char(hi - 1))
            invariant
                n == line@.len(),
                lo < hi <= n,
                !is_white(line@[lo as int]),
                forall|j: int| hi <= j < n ==> is_white(line@[j]),
            decreases hi,
        {
            hi = hi - 1;
        }
        proof {
            lemma_end_non_white_before(line@, n as int, hi as int);
        }
        let ghost t = trimmed(line@);
        proof {
            assert(t =~= line@.subrange(lo as int, hi as int));
            assert(forall|j: int| 0 <= j < t.len() ==> t[j] == line@[lo + j]);
        }
        let len = hi - lo;
        let c0 = line.get_char(lo);
        let starts_close = (len >= 2 && c0 == '*' && line.get_char(lo + 1) == '/') || (len >= 3
            && c0 == '*' && line.get_char(lo + 1) == '*' && line.get_char(lo + 2) == '/');
        proof {
            if len >= 2 && line@[lo as int] == '*' && line@[lo + 1] == '/' {
                assert(seq!['*', '/'] =~= t.subrange(0, 2));
            }
            if len >= 3 && line@[lo as int] == '*' && line@[lo + 1] == '*' && line@[lo + 2]
                == '/' {
                assert(seq!['*', '*', '/'] =~= t.subrange(0, 3));
            }
            assert(starts_close == (begins_with(t, seq!['*', '*', '/']) || begins_with(
                t,
                seq!['*', '/'],
            )));
        }
        if starts_close {
            return (Line::LongComment(), false);
        }
        let starts_open = len >= 3 && c0 == '/' && line.get_char(lo + 1) == '*' && line.get_char(
            lo + 2,
        ) == '*';
        proof {
            if len >= 3 && line@[lo as int] == '/' && line@[lo + 1] == '*' && line@[lo + 2]
                == '*' {
                assert(seq!['/', '*', '*'] =~= t.subrange(0, 3));
            }
            assert(starts_open == begins_with(t, seq!['/', '*', '*']));
        }
        if starts_open {
            return (Line::LongComment(), true);
        }
        if trailing_comment {
            return (Line::LongComment(), true);
        }
        let starts_line_comment = len >= 2 && c0 == '/' && line.get_char(lo + 1) == '/';
        proof {
            if len >= 2 && line@[lo as int] == '/' && line@[lo + 1] == '/' {
                assert(seq!['/', '/'] =~= t.subrange(0, 2));
            }
            assert(starts_line_comment == begins_with(t, seq!['/', '/']));
        }
        if starts_line_comment {
            (Line::Comment(), false)
        } else {
            (Line::Code(), false)
        }
    }
}

/// The per-file banner and metric table that a single-file summary shows.
pub open spec fn single_summary(a: FileSizeAnalyzer) -> Seq<char> {
    "File Summary for "@ + a.path@ + ":\n"@ + count_table(a.count)
}

/// All the single-file summaries of `s`, one after the other, in order.
pub open spec fn rendered_singles(s: Seq<FileSizeAnalyzer>) -> Seq<char>
    decreases s.len(),
{
    if s.len() == 0 {
        Seq::empty()
    } else {
        rendered_singles(s.drop_last()) + single_summary(s.last())
    }
}

/// The length of the longest of `paths` (0 when there are none).
pub open spec fn longest_len(paths: Seq<Seq<char>>) -> int
    decreases paths.len(),
{
    if paths.len() == 0 {
        0
    } else {
        let rest = longest_len(paths.drop_last());
        if paths.last().len() > rest {
            paths.last().len() as int
        } else {
            rest
        }
    }
}

/// Width of the file column: wide enough for the header and every path,
/// and at least 18 columns.
pub open spec fn file_col_width(paths: Seq<Seq<char>>) -> int {
    let header = "File"@.len() as int;
    let l = longest_len(paths);
    let m = if header > l {
        header
    } else {
        l
    };
    if 18 > m {
        18
    } else {
        m
    }
}

/// One numeric table cell: the column separator, then the value
/// right-aligned to width `w`.
pub open spec fn table_cell(v: int, w: int) -> Seq<char> {
    " | "@ + right_aligned(dec_str(v), w)
}

/// One header cell: the column separator, then the label right-aligned to
/// width `w`.
pub open spec fn header_cell(label: Seq<char>, w: int) -> Seq<char> {
    " | "@ + right_aligned(label, w)
}

/// The table's header row.
pub open spec fn table_header_row(fw: int, nw: int) -> Seq<char> {
    "| "@ + left_aligned("File"@, fw) + header_cell("Total"@, nw) + header_cell("White"@, nw)
        + header_cell("Comments"@, nw) + header_cell("Long Cmt"@, nw) + header_cell("Code"@, nw)
        + " |\n"@
}

/// One table row: the label left-aligned in the file column, then the
/// five values of `v` in order.
pub open spec fn table_row(label: Seq<char>, v: (int, int, int, int, int), fw: int, nw: int) -> Seq<
    char,
> {
    "| "@ + left_aligned(label, fw) + table_cell(v.0, nw) + table_cell(v.1, nw) + table_cell(
        v.2,
        nw,
    ) + table_cell(v.3, nw) + table_cell(v.4, nw) + " |\n"@
}

/// The rows pairing each path with its tally, in order.
pub open spec fn table_rows(paths: Seq<Seq<char>>, counts: Seq<Count>, fw: int, nw: int) -> Seq<
    char,
>
    recommends
        paths.len() == counts.len(),
    decreases paths.len(),
{
    if paths.len() == 0 || counts.len() == 0 {
        Seq::empty()
    } else {
        table_rows(paths.drop_last(), counts.drop_last(), fw, nw) + table_row(
            paths.last(),
            (
                counts.last().total_lines as int,
                counts.last().white_lines as int,
                counts.last().comment_lines as int,
                counts.last().long_comment_lines as int,
                counts.last().code_lines as int,
            ),
            fw,
            nw,
        )
    }
}

/// The whole report table: separators, header, one row per file, and a
/// final row summing every column.
pub open spec fn rendered_table(paths: Seq<Seq<char>>, counts: Seq<Count>) -> Seq<char> {
    let fw = file_col_width(paths);
    let nw: int = 12;
    let tw = (fw + 3) + 5 * (nw + 3) + 2;
    let sep = repeat_seq(seq!['-'], tw) + "\n"@;
    sep + table_header_row(fw, nw) + sep + table_rows(paths, counts, fw, nw) + sep + table_row(
        "TOTAL"@,
        sum_counts(counts),
        fw,
        nw,
    ) + sep
}

/// The paths of a sequence of analyzers, in order.
pub open spec fn analyzer_paths(s: Seq<FileSizeAnalyzer>) -> Seq<Seq<char>> {
    s.map_values(|a: FileSizeAnalyzer| a.path@)
}

/// The tallies of a sequence of analyzers, in order.
pub open spec fn analyzer_counts(s: Seq<FileSizeAnalyzer>) -> Seq<Count> {
    s.map_values(|a: FileSizeAnalyzer| a.count)
}

/// Appends a dashed separator line of `width` dashes.
fn push_separator(out: &mut String, width: usize)
    ensures
        final(out)@ == old(out)@ + (repeat_seq(seq!['-'], width as int) + "\n"@),
{
    proof {
        reveal_strlit("-");
        assert("-"@ =~= seq!['-']);
    }
    push_repeat(out, "-", width);
    out.append("\n");
    proof {
        vstd::seq_lib::lemma_concat_associative(
            old(out)@,
            repeat_seq(seq!['-'], width as int),
            "\n"@,
        );
    }
}

/// Appends one numeric cell: separator plus right-aligned value.
fn push_cell(out: &mut String, v: usize, w: usize)
    ensures
        final(out)@ == old(out)@ + table_cell(v as int, w as int),
{
    out.append(" | ");
    push_right_aligned_number(out, v, w);
    proof {
        assert(out@ =~= old(out)@ + table_cell(v as int, w as int));
    }
}

/// Appends one header cell: separator plus right-aligned label.
fn push_header_cell(out: &mut String, label: &str, w: usize)
    ensures
        final(out)@ == old(out)@ + header_cell(label@, w as int),
{
    out.append(" | ");
    push_right_aligned_str(out, label, w);
    proof {
        assert(out@ =~= old(out)@ + header_cell(label@, w as int));
    }
}

/// Appends the table's header row.
fn push_header_row(out: &mut String, fw: usize, nw: usize)
    ensures
        final(out)@ == old(out)@ + table_header_row(fw as int, nw as int),
{
    out.append("| ");
    push_left_aligned_str(out, "File", fw);
    push_header_cell(out, "Total", nw);
    push_header_cell(out, "White", nw);
    push_header_cell(out, "Comments", nw);
    push_header_cell(out, "Long Cmt", nw);
    push_header_cell(out, "Code", nw);
    out.append(" |\n");
    proof {
        assert(out@ =~= old(out)@ + table_header_row(fw as int, nw as int));
    }
}

/// Appends one table row: a left-aligned label and the five counters of
/// `c`.
fn push_count_row(out: &mut String, label: &str, c: Count, fw: usize, nw: usize)
    ensures
        final(out)@ == old(out)@ + table_row(
            label@,
            (
                c.total_lines as int,
                c.white_lines as int,
                c.comment_lines as int,
                c.long_comment_lines as int,
                c.code_lines as int,
            ),
            fw as int,
            nw as int,
        ),
{
    out.append("| ");
    push_left_aligned_str(out, label, fw);
    push_cell(out, c.total_lines, nw);
    push_cell(out, c.white_lines, nw);
    push_cell(out, c.comment_lines, nw);
    push_cell(out, c.long_comment_lines, nw);
    push_cell(out, c.code_lines, nw);
    out.append(" |\n");
    proof {
        assert(out@ =~= old(out)@ + table_row(
            label@,
            (
                c.total_lines as int,
                c.white_lines as int,
                c.comment_lines as int,
                c.long_comment_lines as int,
                c.code_lines as int,
            ),
            fw as int,
            nw as int,
        ));
    }
}

/// Aggregates the per-file analyzers of one run and renders reports over
/// them.
#[derive(Clone, Debug)]
pub struct Analysis {
    pub file_size_analyzers: Vec<FileSizeAnalyzer>,
}

impl Analysis {
    /// An aggregation over no files yet.
    pub fn new() -> (r: Self)
        ensures
            r.file_size_analyzers@ == Seq::<FileSizeAnalyzer>::empty(),
    {
        Analysis { file_size_analyzers: Vec::new() }
    }

    /// Appends one more per-file analyzer to the aggregation.
    pub fn add_analyzer(&mut self, analyzer: FileSizeAnalyzer)
        ensures
            final(self).file_size_analyzers@ == old(self).file_size_analyzers@.push(analyzer),
    {
        self.file_size_analyzers.push(analyzer);
    }

    /// Replaces the aggregation's analyzers wholesale.
    pub fn set_analyzers(&mut self, analyzers: Vec<FileSizeAnalyzer>)
        ensures
            final(self).file_size_analyzers == analyzers,
    {
        self.file_size_analyzers = analyzers;
    }

    /// Renders every file's summary, one after the other.
    pub fn print_summary_as_singles(&self) -> (r: String)
        ensures
            r@ == rendered_singles(self.file_size_analyzers@),
    {
        let ghost all = self.file_size_analyzers@;
        let mut out = String::new();
        let n = self.file_size_analyzers.len();
        let mut i: usize = 0;
        proof {
            assert(out@ =~= rendered_singles(all.take(0)));
        }
        while i < n
            invariant
                i <= n,
                n == all.len(),
                all == self.file_size_analyzers@,
                out@ == rendered_singles(all.take(i as int)),
            decreases n - i,
        {
            let a = &self.file_size_analyzers[i];
            let piece = a.print_single_summary();
            out.append(piece.as_str());
            proof {
                assert(all.take(i + 1).drop_last() =~= all.take(i as int));
                assert(all.take(i + 1).last() == all[i as int]);
                assert(out@ =~= rendered_singles(all.take(i + 1)));
            }
            i = i + 1;
        }
        proof {
            assert(all.take(n as int) =~= all);
        }
        out
    }

    /// Renders the aggregated report as one table: a row per file and a
    /// summed `TOTAL` row.
    pub fn print_summary_as_table(&self) -> (r: String)
        requires
            sum_fits(analyzer_counts(self.file_size_analyzers@)),
            longest_len(analyzer_paths(self.file_size_analyzers@)) + 80 <= usize::MAX,
        ensures
            r@ == rendered_table(
                analyzer_paths(self.file_size_analyzers@),
                analyzer_counts(self.file_size_analyzers@),
            ),
    {
        let ghost all = self.file_size_analyzers@;
        let mut paths: Vec<String> = Vec::new();
        let mut counts: Vec<Count> = Vec::new();
        let n = self.file_size_analyzers.len();
        let mut i: usize = 0;
        while i < n
            invariant
                i <= n,
                n == all.len(),
                all == self.file_size_analyzers@,
                paths@.len() == i,
                counts@.len() == i,
                forall|j: int| 0 <= j < i ==> paths@[j]@ == all[j].path@,
                forall|j: int| 0 <= j < i ==> counts@[j] == all[j].count,
            decreases n - i,
        {
            let a = &self.file_size_analyzers[i];
            paths.push(a.path.clone());
            counts.push(a.count);
            i = i + 1;
        }
        proof {
            assert(paths.deep_view() =~= analyzer_paths(all));
            assert(counts@ =~= analyzer_counts(all));
        }
        Self::print_summary(&paths, &counts)
    }

    /// The length of the longest of `paths` (0 when there are none).
    fn longest_path_len(paths: &Vec<String>) -> (r: usize)
        ensures
            r == longest_len(paths.deep_view()),
    {
        let ghost ps = paths.deep_view();
        let n = paths.len();
        let mut longest: usize = 0;
        let mut i: usize = 0;
        while i < n
            invariant
                i <= n,
                n == ps.len(),
                ps == paths.deep_view(),
                n == paths@.len(),
                longest == longest_len(ps.take(i as int)),
            decreases n - i,
        {
            proof {
                assert(ps.take(i + 1).drop_last() =~= ps.take(i as int));
                assert(ps.take(i + 1).last() == ps[i as int]);
            }
            let pl = paths[i].as_str().unicode_len();
            if pl > longest {
                longest = pl;
            }
            i = i + 1;
        }
        proof {
            assert(ps.take(n as int) =~= ps);
        }
        longest
    }

    /// Appends one table row for every path/tally pair, in order.
    fn push_all_rows(out: &mut String, paths: &Vec<String>, counts: &Vec<Count>, fw: usize, nw: usize)
        requires
            paths@.len() == counts@.len(),
        ensures
            final(out)@ == old(out)@ + table_rows(
                paths.deep_view(),
                counts@,
                fw as int,
                nw as int,
            ),
    {
        let ghost ps = paths.deep_view();
        let ghost fwi = fw as int;
        let ghost nwi = nw as int;
        let n = paths.len();
        let mut i: usize = 0;
        proof {
            assert(out@ =~= old(out)@ + table_rows(ps.take(0), counts@.take(0), fwi, nwi));
        }
        while i < n
            invariant
                i <= n,
                n == ps.len(),
                ps == paths.deep_view(),
                n == paths@.len(),
                n == counts@.len(),
                fwi == fw as int,
                nwi == nw as int,
                out@ == old(out)@ + table_rows(ps.take(i as int), counts@.take(i as int), fwi, nwi),
            decreases n - i,
        {
            let ghost rows_so_far = table_rows(ps.take(i as int), counts@.take(i as int), fwi, nwi);
            let c = counts[i];
            push_count_row(out, paths[i].as_str(), c, fw, nw);
            proof {
                let row = table_row(
                    ps[i as int],
                    (
                        c.total_lines as int,
                        c.white_lines as int,
                        c.comment_lines as int,
                        c.long_comment_lines as int,
                        c.code_lines as int,
                    ),
                    fwi,
                    nwi,
                );
                assert(out@ == (old(out)@ + rows_so_far) + row);
                vstd::seq_lib::lemma_concat_associative(old(out)@, rows_so_far, row);
                assert(ps.take(i + 1).drop_last() =~= ps.take(i as int));
                assert(counts@.take(i + 1).drop_last() =~= counts@.take(i as int));
                assert(ps.take(i + 1).last() == ps[i as int]);
                assert(counts@.take(i + 1).last() == counts@[i as int]);
                assert(table_rows(ps.take(i + 1), counts@.take(i + 1), fwi, nwi) == rows_so_far
                    + row);
            }
            i = i + 1;
        }
        proof {
            assert(ps.take(n as int) =~= ps);
            assert(counts@.take(n as int) =~= counts@);
        }
    }

    /// Renders the table for the given paths and tallies, which must pair
    /// up one to one.
    fn print_summary(paths: &Vec<String>, counts: &Vec<Count>) -> (r: String)
        requires
            paths@.len() == counts@.len(),
            sum_fits(counts@),
            longest_len(paths.deep_view()) + 80 <= usize::MAX,
        ensures
            r@ == rendered_table(paths.deep_view(), counts@),
    {
        let ghost ps = paths.deep_view();
        // Compute the file column width dynamically from the longest path,
        // but never narrower than the header or a practical minimum.
        let longest = Self::longest_path_len(paths);
        proof {
            reveal_strlit("File");
        }
        let header_len = "File".unicode_len();
        let m = if header_len > longest {
            header_len
        } else {
            longest
        };
        let file_width = if 18 > m {
            18
        } else {
            m
        };
        let num_width: usize = 12;
        let total_width = (file_width + 3) + 5 * (num_width + 3) + 2;
        let ghost fwi = file_width as int;
        let ghost nwi = num_width as int;
        let ghost sep = repeat_seq(seq!['-'], total_width as int) + "\n"@;
        proof {
            assert(fwi == file_col_width(ps));
        }
        let mut out = String::new();
        push_separator(&mut out, total_width);
        proof {
            assert(out@ =~= sep);
        }
        push_header_row(&mut out, file_width, num_width);
        push_separator(&mut out, total_width);
        Self::push_all_rows(&mut out, paths, counts, file_width, num_width);
        push_separator(&mut out, total_width);
        // Summed TOTAL row.
        let total = Count::merge(counts);
        push_count_row(&mut out, "TOTAL", total, file_width, num_width);
        proof {
            assert((
                total.total_lines as int,
                total.white_lines as int,
                total.comment_lines as int,
                total.long_comment_lines as int,
                total.code_lines as int,
            ) == sum_counts(counts@));
        }
        push_separator(&mut out, total_width);
        proof {
            let hdr = table_header_row(fwi, nwi);
            let rows = table_rows(ps, counts@, fwi, nwi);
            let trow = table_row("TOTAL"@, sum_counts(counts@), fwi, nwi);
            assert(out@ == ((((((sep + hdr) + sep) + rows) + sep) + trow) + sep));
            assert(rendered_table(ps, counts@) == ((((((sep + hdr) + sep) + rows) + sep) + trow)
                + sep));
        }
        out
    }
}

} // verus!
