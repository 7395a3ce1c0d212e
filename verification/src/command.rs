//! Keys and mouse events, and what the pager does on each.

use crate::context::{CommandLineKindExt, Context, ContextView, ModeView, Step};
use crate::search::SearchView;
use vstd::prelude::*;

verus! {

/// A key, as far as the pager tells keys apart.
#[derive(Clone, Copy, PartialEq, Eq, Debug)]
pub enum Key {
    /// A character key.
    Char(char),
    /// A character key with Ctrl held down.
    Ctrl(char),
    /// Page up.
    PageUp,
    /// Page down.
    PageDown,
    /// Escape.
    Esc,
    /// Backspace.
    Backspace,
    /// Any other key.
    Other,
}

/// A mouse button, as far as the pager tells buttons apart.
#[derive(Clone, Copy, PartialEq, Eq, Debug)]
pub enum MouseButton {
    /// The wheel turned up.
    WheelUp,
    /// The wheel turned down.
    WheelDown,
    /// Any other button.
    Other,
}

/// What the mouse did.
#[derive(Clone, Copy, PartialEq, Eq, Debug)]
pub enum MouseEvent {
    /// A button was pressed.
    Press(MouseButton),
    /// Anything else.
    Other,
}

/// What the terminal reports.
#[derive(Clone, Copy, PartialEq, Eq, Debug)]
pub enum Event {
    /// A key was pressed.
    Key(Key),
    /// The mouse did something.
    Mouse(MouseEvent),
    /// Something the pager has no use for.
    Unsupported,
}

/// What is to happen after an event.
#[derive(Clone, Copy, PartialEq, Eq, Debug)]
pub enum Reaction {
    /// The pager ends.
    Quit,
    /// The next stretch of text is to be read and handed to `handle_line`.
    Read,
    /// The screen is to be drawn anew.
    Redraw,
    /// Nothing.
    Idle,
}

/// What follows from a step of the pager: a read where it asks for one, a
/// new screen where the offset or the mode is new.
pub open spec fn reaction_to(step: Step) -> Reaction {
    match step {
        Step::Read => Reaction::Read,
        Step::Done(true) => Reaction::Redraw,
        Step::Done(false) => Reaction::Idle,
    }
}

/// What follows from a scroll up: a new screen where the offset or the mode
/// is new.
pub open spec fn reaction_to_change(changed: bool) -> Reaction {
    if changed {
        Reaction::Redraw
    } else {
        Reaction::Idle
    }
}

/// A key while keys scroll the text. `q` ends the pager. `j` scrolls down by
/// a row and `k` up. Space, `f`, Ctrl-v, Ctrl-f and page down scroll down by
/// a page, page up scrolls up by one. `/` starts a search, and the screen is
/// drawn anew. Any other key does nothing.
pub open spec fn on_normal_key(v: ContextView, key: Key) -> (ContextView, Reaction) {
    if key == Key::Char('q') {
        (v, Reaction::Quit)
    } else if key == Key::Char('j') {
        (v.scroll_down(1).0, reaction_to(v.scroll_down(1).1))
    } else if key == Key::Char('k') {
        (v.scroll_up(1).0, reaction_to_change(v.scroll_up(1).1))
    } else if key == Key::Char(' ') || key == Key::Ctrl('v') || key == Key::Char('f') || key
        == Key::Ctrl('f') || key == Key::PageDown {
        (v.scroll_down(v.page()).0, reaction_to(v.scroll_down(v.page()).1))
    } else if key == Key::PageUp {
        (v.scroll_up(v.page()).0, reaction_to_change(v.scroll_up(v.page()).1))
    } else if key == Key::Char('/') {
        (
            ContextView {
                mode: ModeView::Search(SearchView { text: Seq::empty(), pos: 0 }),
                ..v
            },
            Reaction::Redraw,
        )
    } else {
        (v, Reaction::Idle)
    }
}

/// A key while keys edit the search line. A character is typed, backspace
/// erases, escape leaves the search for the prompt; after each the screen
/// is drawn anew. Any other key does nothing.
pub open spec fn on_search_key(v: ContextView, key: Key) -> (ContextView, Reaction)
    recommends
        v.mode is Search,
{
    match key {
        Key::Char(c) => (
            ContextView { mode: ModeView::Search(v.mode->Search_0.push(c)), ..v },
            Reaction::Redraw,
        ),
        Key::Esc => (ContextView { mode: ModeView::Normal, ..v }, Reaction::Redraw),
        Key::Backspace => (
            ContextView { mode: ModeView::Search(v.mode->Search_0.erase()), ..v },
            Reaction::Redraw,
        ),
        _ => (v, Reaction::Idle),
    }
}

/// A key: it is read as the mode of the status row says.
pub open spec fn on_key(v: ContextView, key: Key) -> (ContextView, Reaction) {
    match v.mode.ext() {
        CommandLineKindExt::Normal => on_normal_key(v, key),
        CommandLineKindExt::Search => on_search_key(v, key),
    }
}

/// The mouse: the wheel scrolls by one row, in every mode; nothing else
/// does anything.
pub open spec fn on_mouse(v: ContextView, mouse: MouseEvent) -> (ContextView, Reaction) {
    match mouse {
        MouseEvent::Press(MouseButton::WheelUp) => (
            v.scroll_up(1).0,
            reaction_to_change(v.scroll_up(1).1),
        ),
        MouseEvent::Press(MouseButton::WheelDown) => (
            v.scroll_down(1).0,
            reaction_to(v.scroll_down(1).1),
        ),
        _ => (v, Reaction::Idle),
    }
}

/// An event of the terminal. What the pager has no use for changes nothing.
pub open spec fn on_event(v: ContextView, event: Event) -> (ContextView, Reaction) {
    match event {
        Event::Key(key) => on_key(v, key),
        Event::Mouse(mouse) => on_mouse(v, mouse),
        Event::Unsupported => (v, Reaction::Idle),
    }
}

/// The text that was read on a `Reaction::Read`.
pub open spec fn on_line(v: ContextView, raw: Seq<char>) -> (ContextView, Reaction) {
    (v.feed(raw).0, reaction_to(v.feed(raw).1))
}

/// No event of the terminal takes the pager out of a well-formed state, and
/// no text that is read does.
pub proof fn lemma_events_keep_wf(v: ContextView, event: Event, raw: Seq<char>)
    requires
        v.wf(),
    ensures
        on_event(v, event).0.wf(),
        on_line(v, raw).0.wf(),
{
    crate::context::lemma_steps_keep_wf(v, 1, raw);
    crate::context::lemma_steps_keep_wf(v, v.page(), raw);
}

fn react(step: Step) -> (reaction: Reaction)
    ensures
        reaction == reaction_to(step),
{
    match step {
        Step::Read => Reaction::Read,
        Step::Done(true) => Reaction::Redraw,
        Step::Done(false) => Reaction::Idle,
    }
}

fn react_to_change(changed: bool) -> (reaction: Reaction)
    ensures
        reaction == reaction_to_change(changed),
{
    if changed {
        Reaction::Redraw
    } else {
        Reaction::Idle
    }
}

/// Turns events into steps of the pager it holds.
pub struct CommandDispatcher<'a> {
    /// The pager.
    pub ctx: &'a mut Context,
}

impl<'a> CommandDispatcher<'a> {
    /// A dispatcher for `ctx`.
    pub fn new(ctx: &'a mut Context) -> (dispatcher: Self)
        ensures
            *dispatcher.ctx == *old(ctx),
            *final(dispatcher.ctx) == *final(ctx),
    {
        CommandDispatcher { ctx }
    }

    /// Handles one event of the terminal; see [`on_event`].
    pub fn handle_event(&mut self, event: Event) -> (reaction: Reaction)
        requires
            old(self).ctx@.wf(),
        ensures
            final(self).ctx@.wf(),
            (final(self).ctx@, reaction) == on_event(old(self).ctx@, event),
            *final(final(self).ctx) == *final(old(self).ctx),
    {
        proof {
            lemma_events_keep_wf(self.ctx@, event, Seq::empty());
        }
        match event {
            Event::Key(key) => self.handle_key_event(key),
            Event::Mouse(mouse) => self.handle_mouse_event(mouse),
            Event::Unsupported => Reaction::Idle,
        }
    }

    /// Handles the text that was read on a `Reaction::Read`; see
    /// [`on_line`].
    pub fn handle_line(&mut self, raw: String) -> (reaction: Reaction)
        requires
            old(self).ctx@.wf(),
        ensures
            final(self).ctx@.wf(),
            (final(self).ctx@, reaction) == on_line(old(self).ctx@, raw@),
            *final(final(self).ctx) == *final(old(self).ctx),
    {
        react(self.ctx.feed(raw))
    }

    /// Handles a key; see [`on_key`].
    pub fn handle_key_event(&mut self, key: Key) -> (reaction: Reaction)
        requires
            old(self).ctx@.wf(),
        ensures
            final(self).ctx@.wf(),
            (final(self).ctx@, reaction) == on_key(old(self).ctx@, key),
            *final(final(self).ctx) == *final(old(self).ctx),
    {
        match self.ctx.cmd_line_kind() {
            CommandLineKindExt::Normal => self.handle_normal_key_event(key),
            CommandLineKindExt::Search => self.handle_search_key_event(key),
        }
    }

    /// Handles a key while keys scroll the text; see [`on_normal_key`].
    pub fn handle_normal_key_event(&mut self, key: Key) -> (reaction: Reaction)
        requires
            old(self).ctx@.wf(),
        ensures
            final(self).ctx@.wf(),
            (final(self).ctx@, reaction) == on_normal_key(old(self).ctx@, key),
            *final(final(self).ctx) == *final(old(self).ctx),
    {
        match key {
            Key::Char('q') => Reaction::Quit,
            Key::Char('j') => react(self.ctx.scroll_down_line()),
            Key::Char('k') => react_to_change(self.ctx.scroll_up_line()),
            Key::Char(' ') | Key::Ctrl('v') | Key::Char('f') | Key::Ctrl('f') | Key::PageDown => {
                react(self.ctx.scroll_down_screen())
            },
            Key::PageUp => react_to_change(self.ctx.scroll_up_screen()),
            Key::Char('/') => {
                self.ctx.switch_to_search_mode();
                Reaction::Redraw
            },
            _ => Reaction::Idle,
        }
    }

    /// Handles a key while keys edit the search line; see
    /// [`on_search_key`].
    pub fn handle_search_key_event(&mut self, key: Key) -> (reaction: Reaction)
        requires
            old(self).ctx@.wf(),
            old(self).ctx@.mode is Search,
        ensures
            final(self).ctx@.wf(),
            (final(self).ctx@, reaction) == on_search_key(old(self).ctx@, key),
            *final(final(self).ctx) == *final(old(self).ctx),
    {
        match key {
            Key::Char(c) => {
                self.ctx.search_push_char(c);
                Reaction::Redraw
            },
            Key::Esc => {
                self.ctx.switch_to_normal_mode();
                Reaction::Redraw
            },
            Key::Backspace => {
                self.ctx.search_erase_char();
                Reaction::Redraw
            },
            _ => Reaction::Idle,
        }
    }

    /// Handles what the mouse did; see [`on_mouse`].
    pub fn handle_mouse_event(&mut self, mouse: MouseEvent) -> (reaction: Reaction)
        requires
            old(self).ctx@.wf(),
        ensures
            final(self).ctx@.wf(),
            (final(self).ctx@, reaction) == on_mouse(old(self).ctx@, mouse),
            *final(final(self).ctx) == *final(old(self).ctx),
    {
        match mouse {
            MouseEvent::Press(MouseButton::WheelUp) => react_to_change(self.ctx.scroll_up_line()),
            MouseEvent::Press(MouseButton::WheelDown) => react(self.ctx.scroll_down_line()),
            _ => Reaction::Idle,
        }
    }
}

} // verus!
