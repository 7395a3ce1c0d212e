//! The pager's state: the buffered lines, the window over their rows, and
//! the mode of the status row.

use crate::buffer::{line_content, lines_with, total_rows, wrap_lines, Buffer};
use crate::search::{SearchLineData, SearchView};
use crate::terminal::{
    bg_light_white, bg_light_white_sequence, bg_reset, bg_reset_sequence, clear_current_line,
    clear_line_sequence, fg_black, fg_black_sequence, fg_reset, fg_reset_sequence, goto,
    goto_sequence,
};
use vstd::prelude::*;

verus! {

/// The column of the status row at which the terminal's cursor stands
/// while a search is typed: behind the `/` and the characters before the
/// search cursor, counted from one. Columns are 16 bits wide, and the number
/// wraps round where it is larger.
pub open spec fn cursor_column(pos: nat) -> u16 {
    ((pos + 2) % 0x1_0000) as u16
}

/// The text that draws `rows` from the cursor's row on: each row is cleared,
/// written, and ended by a line feed and a carriage return.
pub open spec fn rows_block(rows: Seq<Seq<char>>) -> Seq<char>
    decreases rows.len(),
{
    if rows.len() == 0 {
        Seq::empty()
    } else {
        rows_block(rows.drop_last()) + clear_line_sequence() + rows.last() + seq!['\n', '\r']
    }
}

/// The two ways in which keys are read.
#[derive(Clone, Copy, PartialEq, Eq, Debug)]
pub enum CommandLineKindExt {
    /// Keys scroll the text.
    Normal,
    /// Keys edit the search line.
    Search,
}

/// What the status row shows.
pub enum ModeView {
    /// The name of the file that is shown.
    Filename(Seq<char>),
    /// The prompt.
    Normal,
    /// The mark that the text has ended.
    End,
    /// The search line as it is typed.
    Search(SearchView),
}

impl ModeView {
    /// A search line has its cursor within the text or right behind it.
    pub open spec fn wf(self) -> bool {
        match self {
            ModeView::Search(search) => search.wf(),
            _ => true,
        }
    }

    /// The text of the status row on a terminal of `height` rows: the file's
    /// name or `(END)`, black on light white; `:` as the prompt; or `/` and
    /// the search text, with the cursor moved to its place in the row.
    pub open spec fn status_row(self, height: nat) -> Seq<char> {
        match self {
            ModeView::Filename(name) => fg_black_sequence() + bg_light_white_sequence() + name
                + fg_reset_sequence() + bg_reset_sequence(),
            ModeView::Normal => seq![':'],
            ModeView::End => fg_black_sequence() + bg_light_white_sequence() + seq![
                '(',
                'E',
                'N',
                'D',
                ')',
            ] + fg_reset_sequence() + bg_reset_sequence(),
            ModeView::Search(search) => seq!['/'] + search.text + goto_sequence(
                cursor_column(search.pos),
                height as u16,
            ),
        }
    }

    /// How keys are read in this mode.
    pub open spec fn ext(self) -> CommandLineKindExt {
        match self {
            ModeView::Search(_) => CommandLineKindExt::Search,
            _ => CommandLineKindExt::Normal,
        }
    }
}

/// What the status row shows, as the pager holds it.
enum CommandLineKind {
    Filename(String),
    Normal,
    End,
    Search(SearchLineData),
}

impl View for CommandLineKind {
    type V = ModeView;

    closed spec fn view(&self) -> ModeView {
        match self {
            CommandLineKind::Filename(name) => ModeView::Filename(name@),
            CommandLineKind::Normal => ModeView::Normal,
            CommandLineKind::End => ModeView::End,
            CommandLineKind::Search(data) => ModeView::Search(data@),
        }
    }
}

impl From<&CommandLineKind> for CommandLineKindExt {
    fn from(kind: &CommandLineKind) -> (ext: Self) {
        match kind {
            CommandLineKind::Filename(_) | CommandLineKind::Normal | CommandLineKind::End => {
                CommandLineKindExt::Normal
            },
            CommandLineKind::Search(_) => CommandLineKindExt::Search,
        }
    }
}

impl vstd::std_specs::convert::FromSpecImpl<&CommandLineKind> for CommandLineKindExt {
    open spec fn obeys_from_spec() -> bool {
        true
    }

    open spec fn from_spec(kind: &CommandLineKind) -> Self {
        kind@.ext()
    }
}

/// The lines that the pager waits for.
#[derive(Clone, Copy, PartialEq, Eq, Debug)]
pub enum Demand {
    /// None.
    Idle,
    /// Lines to fill the first screen.
    Fill,
    /// Lines to fill the screen that starts at the given row.
    Scroll(usize),
}

/// What is to happen after a step of the pager.
#[derive(Clone, Copy, PartialEq, Eq, Debug)]
pub enum Step {
    /// The next stretch of text is to be read and handed to `feed`.
    Read,
    /// Nothing more is to be read; the flag says whether the offset or the
    /// mode is another than before.
    Done(bool),
}

/// The pager's state as contracts see it.
pub struct ContextView {
    /// The lines read so far.
    pub lines: Seq<Seq<char>>,
    /// The terminal's columns.
    pub width: nat,
    /// The terminal's rows, the status row among them.
    pub height: nat,
    /// The index of the first visible row among the rows of all lines.
    pub offset: nat,
    /// What the status row shows.
    pub mode: ModeView,
    /// The lines that are waited for.
    pub demand: Demand,
}

impl ContextView {
    /// The rows of text on one screen: all but the status row.
    pub open spec fn page(self) -> nat {
        (self.height - 1) as nat
    }

    /// The rows of all lines read so far.
    pub open spec fn rows(self) -> Seq<Seq<char>> {
        wrap_lines(self.lines, self.width)
    }

    /// The number of rows of all lines read so far.
    pub open spec fn total(self) -> nat {
        total_rows(self.lines, self.width)
    }

    /// The offset at which the last screen starts: the rows from there on
    /// are exactly one page, or all rows where they are less than a page.
    pub open spec fn last_screen(self) -> nat {
        if self.total() >= self.page() {
            (self.total() - self.page()) as nat
        } else {
            0
        }
    }

    /// The terminal has at least one column and one row; the window does not
    /// start behind the last screen; the search cursor is within its text;
    /// a scroll that waits for lines does not lead backwards, and the rows
    /// read so far do not fill the screen at its target.
    pub open spec fn wf(self) -> bool {
        &&& 1 <= self.width <= u16::MAX
        &&& 1 <= self.height <= u16::MAX
        &&& self.offset <= usize::MAX
        &&& self.offset <= self.last_screen()
        &&& self.mode.wf()
        &&& match self.demand {
            Demand::Scroll(target) => self.offset <= target && self.total() < target + self.page(),
            _ => true,
        }
    }

    /// The rows in the window: those from `offset` on, one page at most.
    pub open spec fn visible_rows(self) -> Seq<Seq<char>> {
        let rest = self.rows().skip(self.offset as int);
        rest.take(vstd::math::min(self.page() as int, rest.len() as int))
    }

    /// The text that draws the screen: the cursor goes to the top left, the
    /// visible rows follow, then the status row, cleared first.
    pub open spec fn frame(self) -> Seq<char> {
        goto_sequence(1, 1) + rows_block(self.visible_rows()) + clear_line_sequence()
            + self.mode.status_row(self.height)
    }

    /// The state with the window at `offset` and the status row at `mode`,
    /// waiting for nothing; and the step that reports whether either is new.
    pub open spec fn settle(self, offset: nat, mode: ModeView) -> (ContextView, Step) {
        (
            ContextView { offset, mode, demand: Demand::Idle, ..self },
            Step::Done(offset != self.offset || mode != self.mode),
        )
    }

    /// The offset that a scroll down by `n` rows aims at. It stops at the
    /// largest offset the machine can hold.
    pub open spec fn scroll_target(self, n: nat) -> nat {
        if self.offset + n <= usize::MAX {
            self.offset + n
        } else {
            usize::MAX as nat
        }
    }

    /// A scroll down by `n` rows. Where the rows read so far fill the screen
    /// at the target, the window moves there and the status row shows the
    /// prompt. Else the state waits for lines, and nothing else changes yet.
    pub open spec fn scroll_down(self, n: nat) -> (ContextView, Step) {
        let target = self.scroll_target(n);
        if self.total() >= target + self.page() {
            self.settle(target, ModeView::Normal)
        } else {
            (ContextView { demand: Demand::Scroll(target as usize), ..self }, Step::Read)
        }
    }

    /// A scroll up by `n` rows: the window moves up, to the top at most, and
    /// the status row shows the prompt. The flag says whether the offset or
    /// the mode is another than before.
    pub open spec fn scroll_up(self, n: nat) -> (ContextView, bool) {
        let offset = if n <= self.offset {
            (self.offset - n) as nat
        } else {
            0
        };
        (
            ContextView { offset, mode: ModeView::Normal, ..self },
            offset != self.offset || self.mode != ModeView::Normal,
        )
    }

    /// The start of the pager: where the rows read so far are less than a
    /// page, the state waits for lines.
    pub open spec fn fill(self) -> (ContextView, Step) {
        if self.total() >= self.page() {
            (ContextView { demand: Demand::Idle, ..self }, Step::Done(false))
        } else {
            (ContextView { demand: Demand::Fill, ..self }, Step::Read)
        }
    }

    /// The next stretch of text of the stream comes in, as it was read up to
    /// and including a newline; empty text is the end of the stream.
    ///
    /// A line is buffered in any case. While the first screen is filled, the
    /// end of the stream ends the wait, and a line ends it once a page of
    /// rows is there. While a scroll waits, the end of the stream moves the
    /// window to the last screen and the status row to the end mark; a line
    /// that fills the screen at the target moves the window there and shows
    /// the prompt; any other line asks for the next.
    pub open spec fn feed(self, raw: Seq<char>) -> (ContextView, Step) {
        let more = ContextView { lines: lines_with(self.lines, raw), ..self };
        match self.demand {
            Demand::Idle => (more, Step::Done(false)),
            Demand::Fill => if line_content(raw).is_none() {
                (ContextView { demand: Demand::Idle, ..self }, Step::Done(false))
            } else {
                more.fill()
            },
            Demand::Scroll(target) => if line_content(raw).is_none() {
                self.settle(self.last_screen(), ModeView::End)
            } else if more.total() >= target + more.page() {
                more.settle(target as nat, ModeView::Normal)
            } else {
                (more, Step::Read)
            },
        }
    }

    /// The window stands at the last screen and the status row shows the
    /// end mark: the state in which a scroll leaves the pager once the
    /// stream has ended.
    pub open spec fn at_end(self) -> bool {
        &&& self.mode == ModeView::End
        &&& self.offset == self.last_screen()
    }
}

/// Taking in text never takes rows away, and a line adds at least one.
pub proof fn lemma_feed_grows(v: ContextView, raw: Seq<char>)
    requires
        v.width > 0,
    ensures
        v.lines.is_prefix_of(lines_with(v.lines, raw)),
        total_rows(v.lines, v.width) <= total_rows(lines_with(v.lines, raw), v.width),
        line_content(raw).is_some() ==> total_rows(v.lines, v.width) < total_rows(
            lines_with(v.lines, raw),
            v.width,
        ),
{
    match line_content(raw) {
        Some(line) => {
            crate::buffer::lemma_wrap_lines_push(v.lines, line, v.width);
        },
        None => {},
    }
}

/// Every step leaves a state that is well formed, and the window within the
/// rows: scrolling saturates at the top, at the last screen, and at the
/// largest offset the machine can hold.
pub proof fn lemma_steps_keep_wf(v: ContextView, n: nat, raw: Seq<char>)
    requires
        v.wf(),
    ensures
        v.scroll_down(n).0.wf(),
        v.scroll_up(n).0.wf(),
        v.fill().0.wf(),
        v.feed(raw).0.wf(),
{
    lemma_feed_grows(v, raw);
}

/// Scrolling down never moves the window up, whether the scroll is done at
/// once or waits for lines, and whatever text then comes in; scrolling up
/// never moves it down.
pub proof fn lemma_scroll_is_monotone(v: ContextView, n: nat, raw: Seq<char>)
    requires
        v.wf(),
    ensures
        v.scroll_down(n).0.offset >= v.offset,
        v.scroll_down(n).0.offset <= v.offset + n,
        v.feed(raw).0.offset >= v.offset,
        v.scroll_down(n).0.feed(raw).0.offset >= v.offset,
        v.scroll_up(n).0.offset <= v.offset,
        v.scroll_up(n).0.offset >= v.offset - n,
{
    lemma_feed_grows(v, raw);
    lemma_steps_keep_wf(v, n, raw);
    lemma_feed_grows(v.scroll_down(n).0, raw);
}

/// Once the stream has ended and a scroll has left the window at the last
/// screen with the end mark, a further scroll down asks for a line, and the
/// end of the stream that answers it leaves the offset and the mode as they
/// were.
///
/// A scroll by no rows is left out where the last screen is full: it has
/// all its rows, reads nothing, and shows the prompt.
pub proof fn lemma_end_is_pinned(v: ContextView, n: nat)
    requires
        v.wf(),
        v.at_end(),
        (n >= 1 && v.offset < usize::MAX) || v.total() < v.page(),
    ensures
        v.scroll_down(n).1 == Step::Read,
        v.scroll_down(n).0.feed(Seq::empty()) == (
            ContextView { demand: Demand::Idle, ..v },
            Step::Done(false),
        ),
        v.scroll_down(n).0.feed(Seq::empty()).0.at_end(),
        v.scroll_down(n).0.feed(Seq::empty()).0.offset == v.offset,
{
}

/// In a well-formed state the window lies within the rows read so far, and
/// it is full whenever a page of rows has been read: rows are only missing
/// at its foot where the whole text is shorter than a page.
pub proof fn lemma_window_is_within_rows(v: ContextView)
    requires
        v.wf(),
    ensures
        v.offset <= v.total(),
        v.offset + v.visible_rows().len() <= v.total(),
        v.total() >= v.page() ==> v.visible_rows().len() == v.page(),
        v.total() < v.page() ==> v.offset == 0 && v.visible_rows() == v.rows(),
{
    if v.total() < v.page() {
        assert(v.rows().skip(0) =~= v.rows());
        assert(v.rows().take(v.rows().len() as int) =~= v.rows());
    }
}

/// The rows in the window depend on the lines, the terminal's size and the
/// offset alone: while these stay, the same rows are seen however often
/// they are asked for, whatever the status row shows meanwhile.
pub proof fn lemma_visible_rows_are_stable(a: ContextView, b: ContextView)
    requires
        a.lines == b.lines,
        a.width == b.width,
        a.height == b.height,
        a.offset == b.offset,
    ensures
        a.visible_rows() == b.visible_rows(),
        a.visible_rows().len() <= a.page(),
{
}

/// The state and the step after the texts of `stream` have answered, one
/// after the other, each request to read that `step` and the steps after it
/// make. Texts that are left when nothing more is asked for stay unread.
pub open spec fn run(v: ContextView, step: Step, stream: Seq<Seq<char>>) -> (ContextView, Step)
    decreases stream.len(),
{
    if step == Step::Read && stream.len() > 0 {
        run(v.feed(stream[0]).0, v.feed(stream[0]).1, stream.drop_first())
    } else {
        (v, step)
    }
}

/// Where a scroll to `target` stands after it has read all it asked for:
/// with the window at the target, the screen there full and the prompt
/// shown; or, the stream having ended before that, with the window at the
/// last screen and the end mark shown.
pub open spec fn scrolled_to(w: ContextView, target: nat) -> bool {
    ||| {
        &&& w.mode == ModeView::Normal
        &&& w.offset == target
        &&& w.total() >= target + w.page()
    }
    ||| {
        &&& w.mode == ModeView::End
        &&& w.offset == w.last_screen()
        &&& w.total() < target + w.page()
    }
}

/// A scroll that waits for lines, answered from a stream that ends, comes
/// to rest; see [`lemma_scroll_down_completes`].
proof fn lemma_waiting_scroll_completes(v: ContextView, target: usize, stream: Seq<Seq<char>>)
    requires
        v.wf(),
        v.demand == Demand::Scroll(target),
        stream.len() > 0,
        stream.last().len() == 0,
    ensures
        ({
            let (w, step) = run(v, Step::Read, stream);
            &&& w.wf()
            &&& w.demand == Demand::Idle
            &&& scrolled_to(w, target as nat)
            &&& step == Step::Done(w.offset != v.offset || w.mode != v.mode)
            &&& v.lines.is_prefix_of(w.lines)
            &&& w.lines.len() > v.lines.len() ==> total_rows(w.lines.drop_last(), w.width)
                < target + w.page()
            &&& w.width == v.width
            &&& w.height == v.height
        }),
    decreases stream.len(),
{
    let (next, step) = v.feed(stream[0]);
    lemma_steps_keep_wf(v, 0, stream[0]);
    lemma_feed_grows(v, stream[0]);
    if step == Step::Read {
        let rest = stream.drop_first();
        assert(stream.len() > 1);
        assert(rest.last() == stream.last());
        lemma_waiting_scroll_completes(next, target, rest);
        let (w, _) = run(next, Step::Read, rest);
        assert(v.lines.is_prefix_of(w.lines));
        if w.lines.len() == next.lines.len() {
            assert(w.lines =~= next.lines);
            assert(w.lines.drop_last() =~= v.lines);
        }
    } else {
        assert(run(next, step, stream.drop_first()) == (next, step));
        if next.lines.len() > v.lines.len() {
            assert(next.lines.drop_last() =~= v.lines);
        }
    }
}

/// A scroll down by `n` rows, with every request to read answered from a
/// stream that ends, comes to rest, and then nothing is waited for. Either
/// the window stands `n` rows further down (or at the largest offset the
/// machine can hold), the screen there is full and the status row shows
/// the prompt; or the stream ended before the screen was full, the window
/// stands at the last screen and the status row shows the end mark. The
/// window has not moved up, the lines read before are still there, no line
/// was read that the screen at the target did not need, and the flag says
/// whether the offset or the mode is another than before.
pub proof fn lemma_scroll_down_completes(v: ContextView, n: nat, stream: Seq<Seq<char>>)
    requires
        v.wf(),
        stream.len() > 0,
        stream.last().len() == 0,
    ensures
        ({
            let (w, step) = run(v.scroll_down(n).0, v.scroll_down(n).1, stream);
            &&& w.wf()
            &&& w.demand == Demand::Idle
            &&& scrolled_to(w, v.scroll_target(n))
            &&& step == Step::Done(w.offset != v.offset || w.mode != v.mode)
            &&& w.offset >= v.offset
            &&& v.lines.is_prefix_of(w.lines)
            &&& w.lines.len() > v.lines.len() ==> total_rows(w.lines.drop_last(), w.width)
                < v.scroll_target(n) + w.page()
        }),
{
    let (start, step) = v.scroll_down(n);
    lemma_steps_keep_wf(v, n, stream[0]);
    if step == Step::Read {
        lemma_waiting_scroll_completes(start, v.scroll_target(n) as usize, stream);
        let (w, _) = run(start, step, stream);
        crate::buffer::lemma_total_rows_prefix(v.lines, w.lines, v.width);
    } else {
        assert(run(start, step, stream) == (start, step));
    }
}

/// The first fill, with every request to read answered from a stream that
/// ends, comes to rest with a page of rows read, or with the whole stream
/// read where it is shorter. The window and the status row stay as they
/// were.
pub proof fn lemma_fill_completes(v: ContextView, stream: Seq<Seq<char>>)
    requires
        v.wf(),
        stream.len() > 0,
        stream.last().len() == 0,
    ensures
        ({
            let (w, step) = run(v.fill().0, v.fill().1, stream);
            &&& w.wf()
            &&& w.demand == Demand::Idle
            &&& step == Step::Done(false)
            &&& w.offset == v.offset
            &&& w.mode == v.mode
            &&& v.lines.is_prefix_of(w.lines)
        }),
    decreases stream.len(),
{
    let (start, step) = v.fill();
    if step == Step::Read {
        let (next, then) = start.feed(stream[0]);
        lemma_steps_keep_wf(start, 0, stream[0]);
        lemma_feed_grows(start, stream[0]);
        if then == Step::Read {
            let rest = stream.drop_first();
            assert(rest.last() == stream.last());
            assert(next.fill() == (next, then));
            lemma_fill_completes(next, rest);
            let (w, _) = run(next, Step::Read, rest);
            assert(v.lines.is_prefix_of(w.lines));
        } else {
            assert(run(next, then, stream.drop_first()) == (next, then));
        }
    }
}

/// The pager: the lines read so far, the terminal's size, the window over
/// the rows, the mode of the status row, and the lines it waits for.
pub struct Context {
    buffer: Buffer,
    width: usize,
    height: usize,
    offset: usize,
    cmd_line_kind: CommandLineKind,
    demand: Demand,
}

impl View for Context {
    type V = ContextView;

    closed spec fn view(&self) -> ContextView {
        ContextView {
            lines: self.buffer@,
            width: self.width as nat,
            height: self.height as nat,
            offset: self.offset as nat,
            mode: self.cmd_line_kind@,
            demand: self.demand,
        }
    }
}

/// What the rows of a window hold.
pub open spec fn texts(rows: Seq<&str>) -> Seq<Seq<char>> {
    Seq::new(rows.len(), |i: int| rows[i]@)
}

impl Context {
    /// A pager for a terminal of `width` columns and `height` rows, with no
    /// line read yet and the window at the top. The status row shows
    /// `filename` where there is one, else the prompt.
    pub fn new(width: u16, height: u16, filename: Option<String>) -> (ctx: Self)
        requires
            width >= 1,
            height >= 1,
        ensures
            ctx@.wf(),
            ctx@ == (ContextView {
                lines: Seq::empty(),
                width: width as nat,
                height: height as nat,
                offset: 0,
                mode: match filename {
                    Some(name) => ModeView::Filename(name@),
                    None => ModeView::Normal,
                },
                demand: Demand::Idle,
            }),
    {
        let cmd_line_kind = match filename {
            Some(name) => CommandLineKind::Filename(name),
            None => CommandLineKind::Normal,
        };
        Context {
            buffer: Buffer::new(),
            width: width as usize,
            height: height as usize,
            offset: 0,
            cmd_line_kind,
            demand: Demand::Idle,
        }
    }

    /// How keys are read at present.
    pub fn cmd_line_kind(&self) -> (kind: CommandLineKindExt)
        ensures
            kind == self@.mode.ext(),
    {
        CommandLineKindExt::from(&self.cmd_line_kind)
    }

    /// The index of the first visible row.
    pub fn offset(&self) -> (offset: usize)
        ensures
            offset == self@.offset,
    {
        self.offset
    }

    /// The lines that the pager waits for.
    pub fn demand(&self) -> (demand: Demand)
        ensures
            demand == self@.demand,
    {
        self.demand
    }

    /// Starts a search with an empty search line.
    pub fn switch_to_search_mode(&mut self)
        ensures
            final(self)@ == (ContextView {
                mode: ModeView::Search(SearchView { text: Seq::empty(), pos: 0 }),
                ..old(self)@
            }),
            old(self)@.wf() ==> final(self)@.wf(),
    {
        self.cmd_line_kind = CommandLineKind::Search(SearchLineData::new());
    }

    /// Leaves whatever the status row shows for the prompt.
    pub fn switch_to_normal_mode(&mut self)
        ensures
            final(self)@ == (ContextView { mode: ModeView::Normal, ..old(self)@ }),
            old(self)@.wf() ==> final(self)@.wf(),
    {
        self.cmd_line_kind = CommandLineKind::Normal;
    }

    /// Types `ch` into the search line.
    pub fn search_push_char(&mut self, ch: char)
        requires
            old(self)@.wf(),
            old(self)@.mode is Search,
        ensures
            final(self)@.wf(),
            final(self)@ == (ContextView {
                mode: ModeView::Search(old(self)@.mode->Search_0.push(ch)),
                ..old(self)@
            }),
    {
        if let CommandLineKind::Search(sld) = &mut self.cmd_line_kind {
            sld.insert_char(ch);
        }
    }

    /// Backspace in the search line.
    pub fn search_erase_char(&mut self)
        requires
            old(self)@.wf(),
            old(self)@.mode is Search,
        ensures
            final(self)@.wf(),
            final(self)@ == (ContextView {
                mode: ModeView::Search(old(self)@.mode->Search_0.erase()),
                ..old(self)@
            }),
    {
        if let CommandLineKind::Search(sld) = &mut self.cmd_line_kind {
            sld.erase_char();
        }
    }

    /// Delete in the search line.
    pub fn search_delete_char(&mut self)
        requires
            old(self)@.wf(),
            old(self)@.mode is Search,
        ensures
            final(self)@.wf(),
            final(self)@ == (ContextView {
                mode: ModeView::Search(old(self)@.mode->Search_0.delete()),
                ..old(self)@
            }),
    {
        if let CommandLineKind::Search(sld) = &mut self.cmd_line_kind {
            sld.delete_char();
        }
    }

    /// Moves the cursor of the search line one to the left.
    pub fn search_cursor_left(&mut self)
        requires
            old(self)@.wf(),
            old(self)@.mode is Search,
        ensures
            final(self)@.wf(),
            final(self)@ == (ContextView {
                mode: ModeView::Search(old(self)@.mode->Search_0.left()),
                ..old(self)@
            }),
    {
        if let CommandLineKind::Search(sld) = &mut self.cmd_line_kind {
            sld.cursor_left();
        }
    }

    /// Moves the cursor of the search line one to the right.
    pub fn search_cursor_right(&mut self)
        requires
            old(self)@.wf(),
            old(self)@.mode is Search,
        ensures
            final(self)@.wf(),
            final(self)@ == (ContextView {
                mode: ModeView::Search(old(self)@.mode->Search_0.right()),
                ..old(self)@
            }),
    {
        if let CommandLineKind::Search(sld) = &mut self.cmd_line_kind {
            sld.cursor_right();
        }
    }

    /// Moves the window to `offset`, shows the end mark or the prompt, and
    /// waits for nothing.
    fn settle(&mut self, offset: usize, end: bool) -> (step: Step)
        ensures
            (final(self)@, step) == old(self)@.settle(
                offset as nat,
                if end {
                    ModeView::End
                } else {
                    ModeView::Normal
                },
            ),
    {
        let same_mode = match &self.cmd_line_kind {
            CommandLineKind::End => end,
            CommandLineKind::Normal => !end,
            _ => false,
        };
        let changed = offset != self.offset || !same_mode;
        self.offset = offset;
        self.cmd_line_kind = if end {
            CommandLineKind::End
        } else {
            CommandLineKind::Normal
        };
        self.demand = Demand::Idle;
        Step::Done(changed)
    }

    /// Sees to it that a page of rows is there to show: asks for lines where
    /// the rows read so far are fewer.
    pub fn fill_buffer(&mut self) -> (step: Step)
        requires
            old(self)@.wf(),
        ensures
            final(self)@.wf(),
            (final(self)@, step) == old(self)@.fill(),
    {
        let total: u128 = self.buffer.len(self.width);
        let page: usize = self.height - 1;
        if total >= page as u128 {
            self.demand = Demand::Idle;
            Step::Done(false)
        } else {
            self.demand = Demand::Fill;
            Step::Read
        }
    }

    /// Scrolls down by `lines` rows; see [`ContextView::scroll_down`]. The
    /// window never moves up.
    pub fn scroll_down(&mut self, lines: usize) -> (step: Step)
        requires
            old(self)@.wf(),
        ensures
            final(self)@.wf(),
            (final(self)@, step) == old(self)@.scroll_down(lines as nat),
            final(self)@.offset >= old(self)@.offset,
    {
        let target: usize = self.offset.saturating_add(lines);
        let total: u128 = self.buffer.len(self.width);
        let page: usize = self.height - 1;
        proof {
            lemma_steps_keep_wf(self@, lines as nat, Seq::empty());
        }
        if total >= target as u128 + page as u128 {
            self.settle(target, false)
        } else {
            self.demand = Demand::Scroll(target);
            Step::Read
        }
    }

    /// Scrolls up by `lines` rows; see [`ContextView::scroll_up`]. The
    /// window never moves down, and stops at the top.
    pub fn scroll_up(&mut self, lines: usize) -> (changed: bool)
        requires
            old(self)@.wf(),
        ensures
            final(self)@.wf(),
            (final(self)@, changed) == old(self)@.scroll_up(lines as nat),
            final(self)@.offset <= old(self)@.offset,
    {
        let offset: usize = self.offset.saturating_sub(lines);
        let was_normal = match &self.cmd_line_kind {
            CommandLineKind::Normal => true,
            _ => false,
        };
        let changed = offset != self.offset || !was_normal;
        self.offset = offset;
        self.cmd_line_kind = CommandLineKind::Normal;
        changed
    }

    /// Takes in the next stretch of text of the stream, as it was read up to
    /// and including a newline, or empty at the end of the stream; see
    /// [`ContextView::feed`]. The window never moves up.
    pub fn feed(&mut self, raw: String) -> (step: Step)
        requires
            old(self)@.wf(),
        ensures
            final(self)@.wf(),
            (final(self)@, step) == old(self)@.feed(raw@),
            final(self)@.offset >= old(self)@.offset,
    {
        proof {
            lemma_steps_keep_wf(self@, 0, raw@);
            lemma_scroll_is_monotone(self@, 0, raw@);
        }
        let demand = self.demand;
        let got: bool = self.buffer.append_line(raw).is_some();
        match demand {
            Demand::Idle => Step::Done(false),
            Demand::Fill => {
                if got {
                    self.fill_buffer()
                } else {
                    self.demand = Demand::Idle;
                    Step::Done(false)
                }
            },
            Demand::Scroll(target) => {
                let total: u128 = self.buffer.len(self.width);
                let page: u128 = (self.height - 1) as u128;
                if !got {
                    let last: usize = if total >= page {
                        (total - page) as usize
                    } else {
                        0
                    };
                    self.settle(last, true)
                } else if total >= target as u128 + page {
                    self.settle(target, false)
                } else {
                    Step::Read
                }
            },
        }
    }

    /// Scrolls down by one row.
    pub fn scroll_down_line(&mut self) -> (step: Step)
        requires
            old(self)@.wf(),
        ensures
            final(self)@.wf(),
            (final(self)@, step) == old(self)@.scroll_down(1),
            final(self)@.offset >= old(self)@.offset,
    {
        self.scroll_down(1)
    }

    /// Scrolls up by one row.
    pub fn scroll_up_line(&mut self) -> (changed: bool)
        requires
            old(self)@.wf(),
        ensures
            final(self)@.wf(),
            (final(self)@, changed) == old(self)@.scroll_up(1),
            final(self)@.offset <= old(self)@.offset,
    {
        self.scroll_up(1)
    }

    /// Scrolls down by one page.
    pub fn scroll_down_screen(&mut self) -> (step: Step)
        requires
            old(self)@.wf(),
        ensures
            final(self)@.wf(),
            (final(self)@, step) == old(self)@.scroll_down(old(self)@.page()),
            final(self)@.offset >= old(self)@.offset,
    {
        self.scroll_down(self.height - 1)
    }

    /// Scrolls up by one page.
    pub fn scroll_up_screen(&mut self) -> (changed: bool)
        requires
            old(self)@.wf(),
        ensures
            final(self)@.wf(),
            (final(self)@, changed) == old(self)@.scroll_up(old(self)@.page()),
            final(self)@.offset <= old(self)@.offset,
    {
        self.scroll_up(self.height - 1)
    }

    /// The rows in the window, top to bottom: those from the offset on, one
    /// page at most. The result depends on the state alone, so two calls
    /// with no change between them give the same rows.
    pub fn lines(&self) -> (rows: Vec<&str>)
        requires
            self@.wf(),
        ensures
            texts(rows@) == self@.visible_rows(),
    {
        let ghost all = self@.rows();
        let mut cursor = self.buffer.lines(self.width);
        let mut skipped: usize = 0;
        assert(all.skip(0) =~= all);
        while skipped < self.offset
            invariant
                cursor.wf(),
                skipped <= self.offset <= all.len(),
                cursor.remaining() == all.skip(skipped as int),
            decreases self.offset - skipped,
        {
            let _ = cursor.next();
            assert(all.skip(skipped as int).skip(1) =~= all.skip(skipped + 1));
            skipped = skipped + 1;
        }
        let ghost rest = all.skip(self.offset as int);
        let page: usize = self.height - 1;
        let mut rows: Vec<&str> = Vec::new();
        let mut more = true;
        assert(rest.skip(0) =~= rest);
        assert(texts(rows@) =~= rest.take(0));
        while more && rows.len() < page
            invariant
                cursor.wf(),
                rows.len() <= page,
                rows.len() <= rest.len(),
                cursor.remaining() == rest.skip(rows.len() as int),
                texts(rows@) == rest.take(rows.len() as int),
                !more ==> rows.len() == rest.len(),
            decreases rest.len() - rows.len() + (if more { 1int } else { 0int }),
        {
            match cursor.next() {
                Some(row) => {
                    let ghost before = rows@;
                    rows.push(row);
                    assert(rest.skip(before.len() as int).skip(1) =~= rest.skip(
                        before.len() as int + 1,
                    ));
                    assert(texts(rows@) =~= rest.take(rows.len() as int));
                },
                None => {
                    more = false;
                },
            }
        }
        rows
    }

    /// The text of the status row; see [`ModeView::status_row`].
    pub fn status_row(&self) -> (row: String)
        requires
            self@.wf(),
        ensures
            row@ == self@.mode.status_row(self@.height),
    {
        match &self.cmd_line_kind {
            CommandLineKind::Filename(name) => {
                let mut row = fg_black();
                row.append(bg_light_white().as_str());
                row.append(name.as_str());
                row.append(fg_reset().as_str());
                row.append(bg_reset().as_str());
                row
            },
            CommandLineKind::Normal => {
                let mut row = String::new();
                row.append(":");
                proof {
                    reveal_strlit(":");
                }
                assert(row@ =~= seq![':']);
                row
            },
            CommandLineKind::End => {
                let mut row = fg_black();
                row.append(bg_light_white().as_str());
                row.append("(END)");
                row.append(fg_reset().as_str());
                row.append(bg_reset().as_str());
                proof {
                    reveal_strlit("(END)");
                }
                assert("(END)"@ =~= seq!['(', 'E', 'N', 'D', ')']);
                row
            },
            CommandLineKind::Search(sld) => {
                let mut row = String::new();
                row.append("/");
                row.append(sld.text().as_str());
                let column: usize = (sld.pos() % 0x1_0000 + 2) % 0x1_0000;
                row.append(goto(column as u16, self.height as u16).as_str());
                proof {
                    reveal_strlit("/");
                }
                assert(row@ =~= self@.mode.status_row(self@.height));
                row
            },
        }
    }

    /// The text that draws the screen; see [`ContextView::frame`].
    pub fn render(&self) -> (frame: String)
        requires
            self@.wf(),
        ensures
            frame@ == self@.frame(),
    {
        let rows = self.lines();
        let clear = clear_current_line();
        let mut frame = goto(1, 1);
        let mut i: usize = 0;
        assert(texts(rows@).take(0) =~= Seq::<Seq<char>>::empty());
        assert(frame@ =~= goto_sequence(1, 1) + rows_block(texts(rows@).take(0)));
        while i < rows.len()
            invariant
                i <= rows.len(),
                clear@ == clear_line_sequence(),
                frame@ == goto_sequence(1, 1) + rows_block(texts(rows@).take(i as int)),
            decreases rows.len() - i,
        {
            let ghost before = frame@;
            frame.append(clear.as_str());
            frame.append(rows[i]);
            frame.append("\n\r");
            proof {
                reveal_strlit("\n\r");
                let shown = texts(rows@).take(i + 1);
                assert(shown.drop_last() =~= texts(rows@).take(i as int));
                assert(shown.last() == rows@[i as int]@);
                assert("\n\r"@ =~= seq!['\n', '\r']);
                assert(frame@ =~= goto_sequence(1, 1) + rows_block(shown));
            }
            i = i + 1;
        }
        assert(texts(rows@).take(i as int) =~= texts(rows@));
        frame.append(clear.as_str());
        frame.append(self.status_row().as_str());
        assert(frame@ =~= self@.frame());
        frame
    }
}

} // verus!
