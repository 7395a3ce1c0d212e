//! The search line: the text that is typed for a search, and its cursor.

use crate::terminal::push_char;
use vstd::prelude::*;

verus! {

/// The text typed for a search, with the place of the cursor in it.
pub struct SearchView {
    pub text: Seq<char>,
    pub pos: nat,
}

/// One editing step on the search text.
pub enum SearchEdit {
    /// Put a character in at the cursor.
    Push(char),
    /// Take out the character before the cursor.
    Erase,
    /// Take out the character at the cursor.
    Delete,
    /// Move the cursor one character to the left.
    Left,
    /// Move the cursor one character to the right.
    Right,
}

impl SearchView {
    /// The cursor stands within the text or right behind it.
    pub open spec fn wf(self) -> bool {
        self.pos <= self.text.len()
    }

    /// `c` is put in at the cursor, and the cursor moves behind it.
    pub open spec fn push(self, c: char) -> SearchView {
        SearchView { text: self.text.insert(self.pos as int, c), pos: self.pos + 1 }
    }

    /// The character before the cursor leaves and the cursor moves back;
    /// nothing happens at the start of the text.
    pub open spec fn erase(self) -> SearchView {
        if self.pos > 0 {
            SearchView { text: self.text.remove(self.pos - 1), pos: (self.pos - 1) as nat }
        } else {
            self
        }
    }

    /// The character at the cursor leaves; nothing happens behind the text.
    pub open spec fn delete(self) -> SearchView {
        if self.pos < self.text.len() {
            SearchView { text: self.text.remove(self.pos as int), pos: self.pos }
        } else {
            self
        }
    }

    /// The cursor moves one to the left, and stays at the start.
    pub open spec fn left(self) -> SearchView {
        if self.pos > 0 {
            SearchView { text: self.text, pos: (self.pos - 1) as nat }
        } else {
            self
        }
    }

    /// The cursor moves one to the right, and stays behind the text.
    pub open spec fn right(self) -> SearchView {
        if self.pos < self.text.len() {
            SearchView { text: self.text, pos: self.pos + 1 }
        } else {
            self
        }
    }

    /// The search line after one editing step.
    pub open spec fn apply(self, edit: SearchEdit) -> SearchView {
        match edit {
            SearchEdit::Push(c) => self.push(c),
            SearchEdit::Erase => self.erase(),
            SearchEdit::Delete => self.delete(),
            SearchEdit::Left => self.left(),
            SearchEdit::Right => self.right(),
        }
    }

    /// The search line after the steps of `edits`, first to last.
    pub open spec fn apply_all(self, edits: Seq<SearchEdit>) -> SearchView
        decreases edits.len(),
    {
        if edits.len() == 0 {
            self
        } else {
            self.apply_all(edits.drop_last()).apply(edits.last())
        }
    }
}

/// Whatever is typed, erased, deleted or moved, in any order and any number
/// of times, the cursor stays within the text or right behind it.
pub proof fn lemma_search_cursor_stays_in_text(start: SearchView, edits: Seq<SearchEdit>)
    requires
        start.wf(),
    ensures
        start.apply_all(edits).wf(),
        0 <= start.apply_all(edits).pos <= start.apply_all(edits).text.len(),
    decreases edits.len(),
{
    if edits.len() > 0 {
        lemma_search_cursor_stays_in_text(start, edits.drop_last());
    }
}

/// The search line as it is typed: its characters and the cursor.
pub struct SearchLineData {
    search: Vec<char>,
    pos: usize,
}

impl View for SearchLineData {
    type V = SearchView;

    closed spec fn view(&self) -> SearchView {
        SearchView { text: self.search@, pos: self.pos as nat }
    }
}

impl SearchLineData {
    /// An empty search line with the cursor at its start.
    pub fn new() -> (data: Self)
        ensures
            data@ == (SearchView { text: Seq::empty(), pos: 0 }),
            data@.wf(),
    {
        SearchLineData { search: Vec::new(), pos: 0 }
    }

    /// The place of the cursor: the number of characters before it.
    pub fn pos(&self) -> (pos: usize)
        ensures
            pos == self@.pos,
    {
        self.pos
    }

    /// The search text as a string.
    pub fn text(&self) -> (text: String)
        ensures
            text@ == self@.text,
    {
        let mut text = String::new();
        let mut i: usize = 0;
        while i < self.search.len()
            invariant
                i <= self.search@.len(),
                text@ == self.search@.take(i as int),
            decreases self.search@.len() - i,
        {
            push_char(&mut text, self.search[i]);
            assert(text@ =~= self.search@.take(i + 1));
            i = i + 1;
        }
        assert(self.search@.take(i as int) =~= self.search@);
        text
    }

    /// Puts `ch` in at the cursor and moves the cursor behind it.
    pub fn insert_char(&mut self, ch: char)
        requires
            old(self)@.wf(),
        ensures
            final(self)@ == old(self)@.push(ch),
            final(self)@.wf(),
    {
        self.search.insert(self.pos, ch);
        let len: usize = self.search.len();
        assert(self.pos < len);
        self.pos = self.pos + 1;
    }

    /// Backspace: takes out the character before the cursor.
    pub fn erase_char(&mut self)
        requires
            old(self)@.wf(),
        ensures
            final(self)@ == old(self)@.erase(),
            final(self)@.wf(),
    {
        if self.pos > 0 {
            self.search.remove(self.pos - 1);
            self.pos = self.pos - 1;
        }
    }

    /// Delete: takes out the character at the cursor.
    pub fn delete_char(&mut self)
        requires
            old(self)@.wf(),
        ensures
            final(self)@ == old(self)@.delete(),
            final(self)@.wf(),
    {
        if self.pos < self.search.len() {
            self.search.remove(self.pos);
        }
    }

    /// Moves the cursor one to the left, unless it is at the start.
    pub fn cursor_left(&mut self)
        requires
            old(self)@.wf(),
        ensures
            final(self)@ == old(self)@.left(),
            final(self)@.wf(),
    {
        self.pos = self.pos.saturating_sub(1);
    }

    /// Moves the cursor one to the right, unless it is behind the text.
    pub fn cursor_right(&mut self)
        requires
            old(self)@.wf(),
        ensures
            final(self)@ == old(self)@.right(),
            final(self)@.wf(),
    {
        if self.pos < self.search.len() {
            self.pos = self.pos + 1;
        }
    }
}

} // verus!
