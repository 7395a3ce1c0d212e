//! Logical lines and the terminal rows they wrap to.

use vstd::prelude::*;

verus! {

/// The number of terminal rows that a line of `len` characters takes at a
/// width of `width` columns: `len / width` rounded up, and one row for an
/// empty line.
pub open spec fn row_count(len: nat, width: nat) -> nat
    recommends
        width > 0,
{
    if len == 0 {
        1
    } else {
        ((len + width - 1) / (width as int)) as nat
    }
}

/// `row_count(len, width)` is the least number of rows, and at least one,
/// that together hold `len` characters; where `len` is a positive multiple
/// of `width` it is the plain quotient.
pub proof fn lemma_row_count_is_ceiling(len: nat, width: nat)
    requires
        width > 0,
    ensures
        row_count(len, width) >= 1,
        row_count(len, width) * width >= len,
        len > 0 ==> (row_count(len, width) - 1) * width < len,
        len > 0 && len % width == 0 ==> row_count(len, width) == len / width,
        len % width != 0 ==> row_count(len, width) == len / width + 1,
{
    if len > 0 {
        let r = (len + width - 1) / (width as int);
        assert(r == row_count(len, width));
        assert(len + width - 1 == width * r + (len + width - 1) % (width as int)) by {
            vstd::arithmetic::div_mod::lemma_fundamental_div_mod(len + width - 1, width as int);
        }
        assert(len == width * (len / width) + len % width) by {
            vstd::arithmetic::div_mod::lemma_fundamental_div_mod(len as int, width as int);
        }
        assert(0 <= (len + width - 1) % (width as int) < width) by {
            vstd::arithmetic::div_mod::lemma_mod_bound(len + width - 1, width as int);
        }
        assert(0 <= len % width < width) by {
            vstd::arithmetic::div_mod::lemma_mod_bound(len as int, width as int);
        }
        let q = (len / width) as int;
        let m = (len % width) as int;
        assert(r * width == width * r) by (nonlinear_arith);
        assert((r - 1) * width == width * r - width) by (nonlinear_arith);
        if m == 0 {
            assert(r == q) by (nonlinear_arith)
                requires
                    len + width - 1 == width * r + (len + width - 1) % (width as int),
                    0 <= (len + width - 1) % (width as int) < width,
                    len == width * q,
                    width > 0,
            ;
            assert(q >= 1) by (nonlinear_arith)
                requires
                    len == width * q,
                    len > 0,
                    width > 0,
            ;
        } else {
            assert(r == q + 1) by (nonlinear_arith)
                requires
                    len + width - 1 == width * r + (len + width - 1) % (width as int),
                    0 <= (len + width - 1) % (width as int) < width,
                    len == width * q + m,
                    0 < m < width,
                    width > 0,
            ;
            assert(q >= 0) by (nonlinear_arith)
                requires
                    len == width * q + m,
                    m < width,
                    width > 0,
            ;
        }
    }
}

/// Counts the rows that `line` takes on a terminal `width` columns wide.
pub fn line_width_divisions(line: &str, width: usize) -> (rows: usize)
    requires
        width > 0,
    ensures
        rows == row_count(line@.len(), width as nat),
{
    let len: usize = line.unicode_len();
    proof {
        lemma_row_count_is_ceiling(len as nat, width as nat);
    }
    if len % width == 0 {
        if len / width >= 1 {
            len / width
        } else {
            1
        }
    } else {
        assert(len / width < len) by (nonlinear_arith)
            requires
                len % width != 0,
                width > 0,
        ;
        len / width + 1
    }
}

/// The rows that one line wraps to: row `i` holds the characters from
/// `i * width` up to `(i + 1) * width`, the last row what is left. An empty
/// line wraps to one empty row.
pub open spec fn wrap_line(line: Seq<char>, width: nat) -> Seq<Seq<char>> {
    Seq::new(
        row_count(line.len(), width),
        |i: int| line.subrange(i * width, vstd::math::min((i + 1) * width, line.len() as int)),
    )
}

/// The first `k` rows of a line hold its first `k * width` characters, or
/// all of them where it is shorter.
proof fn lemma_wrap_line_prefix(line: Seq<char>, width: nat, k: nat)
    requires
        width > 0,
        k <= row_count(line.len(), width),
    ensures
        wrap_line(line, width).take(k as int).flatten() == line.take(
            vstd::math::min((k * width) as int, line.len() as int),
        ),
    decreases k,
{
    let rows = wrap_line(line, width);
    if k == 0 {
        assert(rows.take(0) =~= Seq::<Seq<char>>::empty());
        assert(line.take(0) =~= Seq::<char>::empty());
    } else {
        let before = (k - 1) as nat;
        lemma_wrap_line_prefix(line, width, before);
        lemma_row_count_is_ceiling(line.len(), width);
        assert(before * width <= line.len()) by (nonlinear_arith)
            requires
                before <= row_count(line.len(), width) - 1,
                line.len() > 0 ==> (row_count(line.len(), width) - 1) * width < line.len(),
                line.len() == 0 ==> row_count(line.len(), width) == 1,
                width > 0,
        ;
        assert(k * width == before * width + width) by (nonlinear_arith)
            requires
                k == before + 1,
        ;
        assert(rows.take(k as int) =~= rows.take(before as int).push(rows[before as int]));
        rows.take(before as int).lemma_flatten_push(rows[before as int]);
        assert(line.take((before * width) as int) + rows[before as int] =~= line.take(
            vstd::math::min((k * width) as int, line.len() as int),
        ));
    }
}

/// Wrapping keeps the text: the rows of a line, put together again, are the
/// line. Every row but the last is exactly `width` characters long; the last
/// is not longer, and not empty unless the line is.
pub proof fn lemma_wrap_line_keeps_text(line: Seq<char>, width: nat)
    requires
        width > 0,
    ensures
        wrap_line(line, width).flatten() == line,
        forall|i: int|
            0 <= i < wrap_line(line, width).len() - 1 ==> (#[trigger] wrap_line(line, width)[i]).len()
                == width,
        wrap_line(line, width).last().len() <= width,
        line.len() > 0 ==> wrap_line(line, width).last().len() > 0,
{
    let rows = wrap_line(line, width);
    let count = row_count(line.len(), width);
    lemma_row_count_is_ceiling(line.len(), width);
    lemma_wrap_line_prefix(line, width, count);
    assert(rows.take(count as int) =~= rows);
    assert(line.take(line.len() as int) =~= line);
    assert((count - 1) * width == count * width - width) by (nonlinear_arith);
    assert forall|i: int| 0 <= i < rows.len() - 1 implies (#[trigger] rows[i]).len() == width by {
        assert((i + 1) * width <= (count - 1) * width) by (nonlinear_arith)
            requires
                i + 1 <= count - 1,
                width > 0,
        ;
        assert((i + 1) * width == i * width + width) by (nonlinear_arith);
        assert(0 <= i * width) by (nonlinear_arith)
            requires
                i >= 0,
                width > 0,
        ;
    }
}

/// The rows of all `lines`, line after line. Wrapping starts anew with each
/// line: no row holds characters of two lines.
pub open spec fn wrap_lines(lines: Seq<Seq<char>>, width: nat) -> Seq<Seq<char>>
    decreases lines.len(),
{
    if lines.len() == 0 {
        Seq::empty()
    } else {
        wrap_lines(lines.drop_last(), width) + wrap_line(lines.last(), width)
    }
}

/// The number of rows that `lines` wrap to.
pub open spec fn total_rows(lines: Seq<Seq<char>>, width: nat) -> nat {
    wrap_lines(lines, width).len()
}

/// What a stretch of text, as it was read up to and including a newline,
/// adds to the buffer: nothing where the text is empty, which is how the end
/// of the stream shows; else the text without its final newline.
pub open spec fn line_content(raw: Seq<char>) -> Option<Seq<char>> {
    if raw.len() == 0 {
        None
    } else if raw.last() == '\n' {
        Some(raw.drop_last())
    } else {
        Some(raw)
    }
}

/// The lines after `raw` has been taken in.
pub open spec fn lines_with(lines: Seq<Seq<char>>, raw: Seq<char>) -> Seq<Seq<char>> {
    match line_content(raw) {
        Some(line) => lines.push(line),
        None => lines,
    }
}

/// Appending a line appends its rows.
pub proof fn lemma_wrap_lines_push(lines: Seq<Seq<char>>, line: Seq<char>, width: nat)
    requires
        width > 0,
    ensures
        wrap_lines(lines.push(line), width) == wrap_lines(lines, width) + wrap_line(line, width),
        total_rows(lines.push(line), width) == total_rows(lines, width) + row_count(
            line.len(),
            width,
        ),
        total_rows(lines.push(line), width) > total_rows(lines, width),
{
    assert(lines.push(line).drop_last() =~= lines);
    assert(lines.push(line).last() == line);
    lemma_row_count_is_ceiling(line.len(), width);
}

/// Row `k` of line `j` stands in the rows of all lines behind the rows of
/// the `j` lines before it.
pub proof fn lemma_wrap_lines_index(lines: Seq<Seq<char>>, width: nat, j: int, k: int)
    requires
        0 <= j < lines.len(),
        0 <= k < row_count(lines[j].len(), width),
    ensures
        total_rows(lines.take(j), width) + k < total_rows(lines, width),
        wrap_lines(lines, width)[total_rows(lines.take(j), width) + k] == wrap_line(
            lines[j],
            width,
        )[k],
        total_rows(lines.take(j + 1), width) == total_rows(lines.take(j), width) + row_count(
            lines[j].len(),
            width,
        ),
    decreases lines.len(),
{
    let front = lines.drop_last();
    assert(lines.take(j + 1).drop_last() =~= lines.take(j));
    assert(lines.take(j + 1).last() == lines[j]);
    if j == lines.len() - 1 {
        assert(lines.take(j) =~= front);
    } else {
        lemma_wrap_lines_index(front, width, j, k);
        assert(front.take(j) =~= lines.take(j));
        assert(front[j] == lines[j]);
    }
}

/// The buffered lines never lose rows when more lines follow.
pub proof fn lemma_total_rows_prefix(lines: Seq<Seq<char>>, more: Seq<Seq<char>>, width: nat)
    requires
        lines.is_prefix_of(more),
    ensures
        total_rows(lines, width) <= total_rows(more, width),
    decreases more.len(),
{
    if lines.len() < more.len() {
        assert(lines.is_prefix_of(more.drop_last()));
        lemma_total_rows_prefix(lines, more.drop_last(), width);
    } else {
        assert(lines =~= more);
    }
}

/// Turns a stretch of text that was read up to and including a newline into
/// the line it stands for, or `None` where the text is empty.
pub fn logical_line(raw: String) -> (line: Option<String>)
    ensures
        match line {
            Some(text) => line_content(raw@) == Some(text@),
            None => line_content(raw@).is_none(),
        },
{
    let n: usize = raw.as_str().unicode_len();
    if n == 0 {
        None
    } else if raw.as_str().get_char(n - 1) == '\n' {
        let text = raw.as_str().substring_char(0, n - 1).to_owned();
        assert(raw@.drop_last() =~= raw@.subrange(0, n - 1));
        Some(text)
    } else {
        Some(raw)
    }
}

/// The lines read so far, in the order in which they were read. Lines are
/// only ever added at the end.
pub struct Buffer {
    lines: Vec<String>,
}

impl View for Buffer {
    type V = Seq<Seq<char>>;

    closed spec fn view(&self) -> Seq<Seq<char>> {
        Seq::new(self.lines@.len(), |i: int| self.lines@[i]@)
    }
}

impl Buffer {
    /// A buffer without lines.
    pub fn new() -> (buffer: Self)
        ensures
            buffer@ == Seq::<Seq<char>>::empty(),
    {
        let buffer = Buffer { lines: Vec::new() };
        assert(buffer@ =~= Seq::<Seq<char>>::empty());
        buffer
    }

    /// Takes in the next stretch of text of the stream, as it was read up to
    /// and including a newline. Empty text is the end of the stream and
    /// leaves the buffer as it is; any other text adds one line, which is
    /// handed back.
    pub fn append_line(&mut self, raw: String) -> (line: Option<&str>)
        ensures
            final(self)@ == lines_with(old(self)@, raw@),
            match line {
                Some(text) => line_content(raw@) == Some(text@),
                None => line_content(raw@).is_none(),
            },
    {
        match logical_line(raw) {
            Some(text) => {
                self.lines.push(text);
                let last: usize = self.lines.len() - 1;
                assert(self@ =~= old(self)@.push(text@));
                Some(self.lines[last].as_str())
            },
            None => None,
        }
    }

    /// The number of rows that the buffered lines take at `width` columns.
    pub fn len(&self, width: usize) -> (rows: u128)
        requires
            width > 0,
        ensures
            rows == total_rows(self@, width as nat),
    {
        let mut rows: u128 = 0;
        let mut i: usize = 0;
        assert(self@.take(0) =~= Seq::<Seq<char>>::empty());
        while i < self.lines.len()
            invariant
                width > 0,
                i <= self.lines@.len(),
                rows == total_rows(self@.take(i as int), width as nat),
                rows <= i * usize::MAX,
            decreases self.lines@.len() - i,
        {
            let count: usize = line_width_divisions(self.lines[i].as_str(), width);
            proof {
                lemma_row_count_is_ceiling(self@[i as int].len(), width as nat);
                lemma_wrap_lines_index(self@, width as nat, i as int, 0);
                assert((i + 1) * usize::MAX <= usize::MAX * usize::MAX) by (nonlinear_arith)
                    requires
                        i + 1 <= usize::MAX,
                ;
                assert(i * usize::MAX + usize::MAX == (i + 1) * usize::MAX) by (nonlinear_arith);
                assert(usize::MAX * usize::MAX <= u128::MAX) by (nonlinear_arith)
                    requires
                        usize::MAX <= 0xffff_ffff_ffff_ffff,
                ;
            }
            rows = rows + count as u128;
            i = i + 1;
        }
        assert(self@.take(i as int) =~= self@);
        rows
    }

    /// A cursor over the rows of the buffered lines at `width` columns, from
    /// the first row on.
    pub fn lines(&self, width: usize) -> (rows: Lines<'_>)
        requires
            width > 0,
        ensures
            rows.wf(),
            rows.remaining() == wrap_lines(self@, width as nat),
    {
        let rows = Lines { lines: &self.lines, width, curr_line: 0, curr_idx: 0 };
        assert(0usize % width == 0 && 0usize / width == 0) by (nonlinear_arith)
            requires
                width > 0,
        ;
        assert(rows.source() =~= self@);
        assert(rows.source().take(0) =~= Seq::<Seq<char>>::empty());
        assert(wrap_lines(self@, width as nat).skip(0) =~= wrap_lines(self@, width as nat));
        rows
    }
}

/// A cursor over the rows of a buffer: it hands out one row at a time.
pub struct Lines<'a> {
    lines: &'a Vec<String>,
    width: usize,
    curr_line: usize,
    curr_idx: usize,
}

impl<'a> Lines<'a> {
    /// The lines that the cursor walks over.
    pub closed spec fn source(&self) -> Seq<Seq<char>> {
        Seq::new(self.lines@.len(), |i: int| self.lines@[i]@)
    }

    /// The number of rows handed out so far.
    pub closed spec fn emitted(&self) -> nat {
        total_rows(self.source().take(self.curr_line as int), self.width as nat) + (self.curr_idx
            / self.width) as nat
    }

    /// The cursor stands at the start of a row that exists, or behind the
    /// last line.
    pub closed spec fn wf(&self) -> bool {
        &&& self.width > 0
        &&& self.curr_line <= self.lines@.len()
        &&& self.curr_idx % self.width == 0
        &&& self.curr_line == self.lines@.len() ==> self.curr_idx == 0
        &&& self.curr_line < self.lines@.len() ==> self.curr_idx
            < self.lines@[self.curr_line as int]@.len() || self.curr_idx == 0
    }

    /// The rows still to come, in order.
    pub closed spec fn remaining(&self) -> Seq<Seq<char>> {
        wrap_lines(self.source(), self.width as nat).skip(self.emitted() as int)
    }

    /// Hands out the next row and moves behind it; `None` when no row is
    /// left.
    pub fn next(&mut self) -> (row: Option<&'a str>)
        requires
            old(self).wf(),
        ensures
            final(self).wf(),
            match row {
                Some(text) => {
                    &&& old(self).remaining().len() > 0
                    &&& text@ == old(self).remaining()[0]
                    &&& final(self).remaining() == old(self).remaining().skip(1)
                },
                None => {
                    &&& old(self).remaining().len() == 0
                    &&& final(self).remaining() == old(self).remaining()
                },
            },
    {
        let lines: &'a Vec<String> = self.lines;
        let ghost source = self.source();
        let ghost width = self.width as nat;
        if self.curr_line == lines.len() {
            assert(source.take(self.curr_line as int) =~= source);
            return None;
        }
        let line: &'a str = lines[self.curr_line].as_str();
        let len: usize = line.unicode_len();
        let rest: usize = len - self.curr_idx;
        let render_width: usize = if rest < self.width {
            rest
        } else {
            self.width
        };
        let text: &'a str = line.substring_char(self.curr_idx, self.curr_idx + render_width);
        let ghost k = (self.curr_idx / self.width) as int;
        let ghost j = self.curr_line as int;
        proof {
            assert(source[j] == line@);
            lemma_row_count_is_ceiling(len as nat, width);
            vstd::arithmetic::div_mod::lemma_fundamental_div_mod(
                self.curr_idx as int,
                self.width as int,
            );
            assert(self.curr_idx == k * width) by (nonlinear_arith)
                requires
                    self.curr_idx == width * k + 0,
            ;
            assert((k + 1) * width == k * width + width) by (nonlinear_arith);
            assert(k < row_count(len as nat, width)) by (nonlinear_arith)
                requires
                    k * width < len || (k == 0 && len == 0),
                    row_count(len as nat, width) * width >= len,
                    row_count(len as nat, width) >= 1,
                    k >= 0,
            ;
            lemma_wrap_lines_index(source, width, j, k);
            assert(wrap_line(line@, width)[k] == text@);
        }
        self.curr_idx = self.curr_idx + render_width;
        if self.curr_idx == len {
            proof {
                assert(row_count(len as nat, width) == k + 1) by (nonlinear_arith)
                    requires
                        (k + 1) * width >= len,
                        k * width < len || (k == 0 && len == 0),
                        len > 0 ==> (row_count(len as nat, width) - 1) * width < len,
                        row_count(len as nat, width) * width >= len,
                        row_count(len as nat, width) >= 1,
                        width > 0,
                        k >= 0,
                ;
            }
            self.curr_line = self.curr_line + 1;
            self.curr_idx = 0;
        } else {
            proof {
                assert(self.curr_idx == (k + 1) * width);
                vstd::arithmetic::div_mod::lemma_fundamental_div_mod_converse(
                    self.curr_idx as int,
                    width as int,
                    k + 1,
                    0,
                );
            }
        }
        proof {
            assert(self.emitted() == old(self).emitted() + 1);
            assert(self.remaining() =~= old(self).remaining().skip(1));
        }
        Some(text)
    }
}

} // verus!
