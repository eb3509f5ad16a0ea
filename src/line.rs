use vstd::prelude::*;

verus! {

/// One logical line of a buffer: the offsets of its first and last
/// characters, both inclusive. `end` normally points at the terminating
/// newline; for the final line it is the last index of the data.
#[derive(Debug, Clone, Copy, PartialEq, Eq, Structural)]
pub struct Line {
    pub start: usize,
    pub end: usize,
}

impl Line {
    pub open spec fn spec_len(self) -> int {
        self.end - self.start + 1
    }

    /// Number of offsets the line spans (0 for the empty line after a
    /// trailing newline).
    pub fn len(&self) -> (r: usize)
        requires
            self.start <= self.end + 1,
            self.end < usize::MAX,
        ensures
            r == self.spec_len(),
    {
        self.end + 1 - self.start
    }
}

/// `p` lies inside the inclusive range of `l`.
pub open spec fn contains(l: Line, p: int) -> bool {
    l.start <= p <= l.end
}

/// Offset at which line `i` has to start: right after the previous line.
pub open spec fn expected_start(lines: Seq<Line>, i: int) -> int {
    if i == 0 {
        0
    } else {
        lines[i - 1].end + 1
    }
}

/// No newline at any offset in `[lo, hi)`.
pub open spec fn no_newline(data: Seq<char>, lo: int, hi: int) -> bool {
    forall|k: int| lo <= k < hi ==> data[k] != '\n'
}

/// Among the first `m` entries, each starts right after the previous one ends.
pub open spec fn linked(lines: Seq<Line>, m: int) -> bool {
    &&& m > 0 ==> lines[0].start == 0
    &&& forall|i: int, j: int|
        #![trigger lines[i], lines[j]]
        0 <= i && j == i + 1 && j < m ==> lines[j].start == lines[i].end + 1
}

/// The first `m` entries are complete lines: each ends at a newline and
/// holds no other newline.
pub open spec fn complete_lines(data: Seq<char>, lines: Seq<Line>, m: int) -> bool {
    forall|i: int|
        #![trigger lines[i]]
        0 <= i < m ==> {
            &&& lines[i].start <= lines[i].end < data.len()
            &&& data[lines[i].end as int] == '\n'
            &&& no_newline(data, lines[i].start as int, lines[i].end as int)
        }
}

/// Offset of the last line's `end`: the last index, or 0 for empty data.
pub open spec fn last_end(len: int) -> int {
    if len == 0 {
        0
    } else {
        len - 1
    }
}

/// `lines` is the line index of `data`: one entry per newline, closing at it,
/// followed by one final entry that runs to the end of the data.
pub open spec fn is_line_index(data: Seq<char>, lines: Seq<Line>) -> bool {
    let n = lines.len() as int;
    &&& n >= 1
    &&& linked(lines, n)
    &&& complete_lines(data, lines, n - 1)
    &&& lines[n - 1].start <= data.len()
    &&& lines[n - 1].end == last_end(data.len() as int)
    &&& no_newline(data, lines[n - 1].start as int, data.len() as int)
}

/// Builds the line index of `data` in one scan.
pub fn line_spans(data: &Vec<char>) -> (lines: Vec<Line>)
    ensures
        is_line_index(data@, lines@),
{
    let mut lines: Vec<Line> = Vec::new();
    let mut start: usize = 0;
    let mut i: usize = 0;
    while i < data.len()
        invariant
            start <= i <= data.len(),
            linked(lines@, lines@.len() as int),
            complete_lines(data@, lines@, lines@.len() as int),
            start == expected_start(lines@, lines@.len() as int),
            no_newline(data@, start as int, i as int),
        decreases data.len() - i,
    {
        if data[i] == '\n' {
            let ghost prev = lines@;
            lines.push(Line { start, end: i });
            assert forall|j: int| #![trigger lines@[j]] 0 <= j < prev.len() implies lines@[j]
                == prev[j] by {}
            assert(lines@[prev.len() as int] == Line { start, end: i });
            start = i + 1;
        }
        i = i + 1;
    }
    let end: usize = if data.len() == 0 {
        0
    } else {
        data.len() - 1
    };
    let ghost prev = lines@;
    lines.push(Line { start, end });
    assert forall|j: int| #![trigger lines@[j]] 0 <= j < prev.len() implies lines@[j] == prev[j] by {}
    assert(lines@[prev.len() as int] == Line { start, end });
    lines
}

/// Index of the line holding offset `pos` in a line index of `data`. The
/// end-of-data offset belongs to the last line.
pub(crate) fn line_containing(lines: &Vec<Line>, pos: usize, Ghost(data): Ghost<Seq<char>>) -> (r: usize)
    requires
        is_line_index(data, lines@),
        pos <= data.len(),
    ensures
        r < lines@.len(),
        pos < data.len() || data.len() == 0 ==> contains(lines@[r as int], pos as int),
        pos == data.len() ==> r == lines@.len() - 1,
        r == line_of(lines@, pos as int),
{
    let n = lines.len();
    let mut i: usize = 0;
    while i < n - 1
        invariant
            n == lines@.len(),
            n >= 1,
            i <= n - 1,
            is_line_index(data, lines@),
            pos <= data.len(),
            pos >= expected_start(lines@, i as int),
        decreases n - 1 - i,
    {
        assert(lines@[i as int].start == expected_start(lines@, i as int));
        if pos <= lines[i].end {
            proof {
                lemma_line_of(data, lines@, pos as int, i as int);
            }
            return i;
        }
        i = i + 1;
    }
    proof {
        lemma_line_of(data, lines@, pos as int, i as int);
    }
    i
}

/// Line `i` is where offset `p` belongs: it starts at or before `p`, and
/// unless it is the last line, ends at or after `p`.
pub open spec fn is_line_of(lines: Seq<Line>, p: int, i: int) -> bool {
    &&& 0 <= i < lines.len()
    &&& lines[i].start <= p
    &&& (i == lines.len() - 1 || p <= lines[i].end)
}

/// The line that offset `p` belongs to.
pub open spec fn line_of(lines: Seq<Line>, p: int) -> int {
    choose|i: int| is_line_of(lines, p, i)
}

/// At most one line holds a given offset, so `line_of` names it.
pub proof fn lemma_line_of(data: Seq<char>, lines: Seq<Line>, p: int, i: int)
    requires
        is_line_index(data, lines),
        is_line_of(lines, p, i),
    ensures
        line_of(lines, p) == i,
{
    let k = line_of(lines, p);
    assert(is_line_of(lines, p, k));
    if k < i {
        lemma_lines_ordered(data, lines, k, i);
    } else if i < k {
        lemma_lines_ordered(data, lines, i, k);
    }
}

/// Every offset from 0 to the end of the data belongs to some line.
pub proof fn lemma_line_of_exists(data: Seq<char>, lines: Seq<Line>, p: int)
    requires
        is_line_index(data, lines),
        0 <= p <= data.len(),
    ensures
        is_line_of(lines, p, line_of(lines, p)),
{
    if p < data.len() || data.len() == 0 {
        let r = lemma_find_line(data, lines, p, 0);
        assert(is_line_of(lines, p, r));
    } else {
        assert(is_line_of(lines, p, lines.len() - 1));
    }
}

/// Line `i` starts at an offset no smaller than `i`.
pub proof fn lemma_start_at_least_index(data: Seq<char>, lines: Seq<Line>, i: int)
    requires
        is_line_index(data, lines),
        0 <= i < lines.len(),
    ensures
        lines[i].start >= i,
    decreases i,
{
    if i > 0 {
        lemma_start_at_least_index(data, lines, i - 1);
        assert(lines[i].start == lines[i - 1].end + 1);
    }
}

/// Every line ends at most one offset before the end of the data.
pub proof fn lemma_line_bounds(data: Seq<char>, lines: Seq<Line>, i: int)
    requires
        is_line_index(data, lines),
        0 <= i < lines.len(),
    ensures
        lines[i].start <= lines[i].end + 1,
        lines[i].end <= data.len(),
        lines[i].start <= data.len(),
        lines[i].spec_len() == 0 ==> i == lines.len() - 1,
{
    if i < lines.len() - 1 {
        assert(lines[i].start <= lines[i].end < data.len());
    } else {
        if data.len() > 0 {
            if i > 0 {
                assert(lines[i].start == lines[i - 1].end + 1);
                assert(lines[i - 1].end < data.len());
            }
        }
    }
}

/// Characters of `data` that line `l` covers (nothing for a line that starts
/// at the end of the data).
pub open spec fn covered(data: Seq<char>, l: Line) -> Seq<char> {
    data.subrange(l.start as int, if l.end < data.len() { l.end + 1 } else { data.len() as int })
}

/// The covered characters of `lines`, concatenated in order.
pub open spec fn joined(data: Seq<char>, lines: Seq<Line>) -> Seq<char>
    decreases lines.len(),
{
    if lines.len() == 0 {
        Seq::empty()
    } else {
        joined(data, lines.drop_last()) + covered(data, lines.last())
    }
}

proof fn lemma_joined_prefix(data: Seq<char>, lines: Seq<Line>, m: int)
    requires
        is_line_index(data, lines),
        0 <= m < lines.len(),
    ensures
        joined(data, lines.take(m)) == data.subrange(0, expected_start(lines, m)),
    decreases m,
{
    if m == 0 {
        assert(data.subrange(0, 0) =~= Seq::<char>::empty());
    } else {
        lemma_joined_prefix(data, lines, m - 1);
        assert(lines.take(m).drop_last() =~= lines.take(m - 1));
        assert(lines.take(m).last() == lines[m - 1]);
        let l = lines[m - 1];
        assert(l.start == expected_start(lines, m - 1));
        assert(data.subrange(0, expected_start(lines, m - 1)) + data.subrange(
            l.start as int,
            l.end + 1,
        ) =~= data.subrange(0, l.end + 1));
    }
}

/// Splitting data into its lines and joining their characters back in order
/// gives the data again.
pub proof fn lemma_lines_rejoin(data: Seq<char>, lines: Seq<Line>)
    requires
        is_line_index(data, lines),
    ensures
        joined(data, lines) == data,
{
    let n = lines.len() as int;
    lemma_joined_prefix(data, lines, n - 1);
    assert(lines.drop_last() =~= lines.take(n - 1));
    let l = lines[n - 1];
    assert(covered(data, l) =~= data.subrange(l.start as int, data.len() as int));
    assert(data.subrange(0, l.start as int) + data.subrange(l.start as int, data.len() as int)
        =~= data);
}

proof fn lemma_lines_ordered(data: Seq<char>, lines: Seq<Line>, i: int, j: int)
    requires
        is_line_index(data, lines),
        0 <= i < j < lines.len(),
    ensures
        lines[i].end < lines[j].start,
    decreases j - i,
{
    if j > i + 1 {
        lemma_lines_ordered(data, lines, i, j - 1);
        assert(lines[j - 1].start <= lines[j - 1].end);
    }
    assert(lines[j].start == expected_start(lines, j));
}

proof fn lemma_find_line(data: Seq<char>, lines: Seq<Line>, p: int, i: int) -> (r: int)
    requires
        is_line_index(data, lines),
        0 <= i < lines.len(),
        expected_start(lines, i) <= p,
        p < data.len() || (p == 0 && data.len() == 0),
    ensures
        0 <= r < lines.len(),
        contains(lines[r], p),
    decreases lines.len() - i,
{
    assert(lines[i].start == expected_start(lines, i));
    if i == lines.len() - 1 || p <= lines[i].end {
        i
    } else {
        lemma_find_line(data, lines, p, i + 1)
    }
}

/// Every offset inside the data, and offset 0 of empty data, lies in
/// exactly one line of the line index.
pub proof fn lemma_unique_line(data: Seq<char>, lines: Seq<Line>, p: int)
    requires
        is_line_index(data, lines),
        0 <= p,
        p < data.len() || (p == 0 && data.len() == 0),
    ensures
        exists|i: int| 0 <= i < lines.len() && contains(lines[i], p),
        forall|i: int, j: int|
            0 <= i < lines.len() && 0 <= j < lines.len() && contains(lines[i], p) && contains(
                lines[j],
                p,
            ) ==> i == j,
{
    let r = lemma_find_line(data, lines, p, 0);
    assert(contains(lines[r], p));
    assert forall|i: int, j: int|
        0 <= i < lines.len() && 0 <= j < lines.len() && contains(lines[i], p) && contains(
            lines[j],
            p,
        ) implies i == j by {
        if i < j {
            lemma_lines_ordered(data, lines, i, j);
        } else if j < i {
            lemma_lines_ordered(data, lines, j, i);
        }
    }
}

proof fn lemma_same_line(data: Seq<char>, a: Seq<Line>, b: Seq<Line>, i: int)
    requires
        is_line_index(data, a),
        is_line_index(data, b),
        0 <= i < a.len(),
        i < b.len(),
    ensures
        a[i] == b[i],
        i == a.len() - 1 <==> i == b.len() - 1,
    decreases i,
{
    if i > 0 {
        lemma_same_line(data, a, b, i - 1);
        assert(a[i].start == a[i - 1].end + 1);
        assert(b[i].start == b[i - 1].end + 1);
    }
    let start = a[i].start;
    assert(b[i].start == start);
    if i < a.len() - 1 && i < b.len() - 1 {
        if a[i].end < b[i].end {
            assert(data[a[i].end as int] == '\n');
        } else if b[i].end < a[i].end {
            assert(data[b[i].end as int] == '\n');
        }
    } else if i < a.len() - 1 {
        assert(data[a[i].end as int] == '\n');
    } else if i < b.len() - 1 {
        assert(data[b[i].end as int] == '\n');
    }
}

/// The line index of given data is unique.
pub proof fn lemma_line_index_unique(data: Seq<char>, a: Seq<Line>, b: Seq<Line>)
    requires
        is_line_index(data, a),
        is_line_index(data, b),
    ensures
        a == b,
{
    let m = if a.len() < b.len() {
        a.len() - 1
    } else {
        b.len() - 1
    };
    lemma_same_line(data, a, b, m);
    assert forall|i: int| 0 <= i < a.len() implies a[i] == b[i] by {
        lemma_same_line(data, a, b, i);
    }
    assert(a =~= b);
}

} // verus!
