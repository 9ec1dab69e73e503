//! The interactive list session as a state machine: each key or each answer
//! of the store moves the session to its next state and names the effect
//! that the terminal loop carries out.

use vstd::prelude::*;
use crate::tags::{has_in_progress, has_tag, in_progress, strip_in_progress, strip_tag};
use crate::text::{append_chars, chars_of, string_of, trim, trim_chars};
use crate::todo::{base_identifier, Todo, TodoView, todo_views};

verus! {

/// A key as the session reads it.
#[derive(Clone, Copy, Debug, PartialEq, Eq, Structural)]
pub enum KeyCode {
    Char(char),
    Up,
    Down,
    Enter,
    Esc,
    Backspace,
    Other,
}

/// A key press: the key, and whether Control alone was held.
#[derive(Clone, Copy, Debug, PartialEq, Eq, Structural)]
pub struct Key {
    pub code: KeyCode,
    pub control: bool,
}

/// What the terminal loop does next.
#[derive(Clone, Copy, Debug, PartialEq, Eq, Structural)]
pub enum Effect {
    /// Nothing changed.
    Nothing,
    /// Leave the session.
    Quit,
    /// The list is empty now: leave the session with a message.
    Finish,
    /// Move up `move_up` lines, clear downward and print every line.
    Redraw { move_up: usize },
    /// Clear the whole screen and print every line from the top.
    RedrawAll,
    /// Go to the start of the line, clear downward and print every line.
    RedrawFromTop,
    /// Show the notes of the item at `position` after moving up `move_up`
    /// lines, then clear the screen and print every line.
    ShowNotes { position: usize, move_up: usize },
    /// Ask the store to flip the completion of the item at `position`,
    /// which is `completed` now; `archive` asks for the archive step after
    /// it, should the item become completed.
    ToggleCompletion { position: usize, completed: bool, archive: bool },
    /// Ask the store to add or remove the in-progress tag of the item at
    /// `position`; `has_tag` says that it is there now.
    ToggleInProgress { position: usize, has_tag: bool },
    /// Fetch the list again.
    Refetch,
    /// Ask the store to archive completed items, then fetch the list again.
    ArchiveAndRefetch,
    /// Open the entry line for a new item after moving up `move_up` lines.
    OpenEntry { move_up: usize },
}

/// A session as mathematical values.
pub struct SessionView {
    pub todos: Seq<TodoView>,
    pub selected: nat,
    pub displayed: nat,
}

/// The state of a running session.
pub struct Session {
    /// The local copy of today's list.
    pub todos: Vec<Todo>,
    /// Index of the selected item.
    pub selected: usize,
    /// How many lines the list occupies on screen.
    pub displayed_count: usize,
}

impl View for Session {
    type V = SessionView;

    open spec fn view(&self) -> SessionView {
        SessionView {
            todos: todo_views(self.todos@),
            selected: self.selected as nat,
            displayed: self.displayed_count as nat,
        }
    }
}

/// What a line shows of an item after its identifier: the name, and the
/// tags in brackets when there are some.
pub open spec fn item_text(t: TodoView) -> Seq<char> {
    if t.tags.len() > 0 {
        t.name + seq![' ', '['] + t.tags + seq![']']
    } else {
        t.name
    }
}

/// The marker in front of a line.
pub open spec fn marker(selected: bool) -> Seq<char> {
    if selected {
        seq!['>', ' ']
    } else {
        seq![' ', ' ']
    }
}

/// Turns strike-through on.
pub open spec fn strike_on() -> Seq<char> {
    seq!['\x1b', '[', '9', 'm']
}

/// Turns strike-through off.
pub open spec fn strike_off() -> Seq<char> {
    seq!['\x1b', '[', '2', '9', 'm']
}

/// The line of one item: marker, identifier, then the text, struck through
/// when the item is completed.
pub open spec fn rendered_line(t: TodoView, selected: bool) -> Seq<char> {
    if t.is_completed {
        marker(selected) + t.identifier + seq![' '] + strike_on() + item_text(t) + strike_off()
    } else {
        marker(selected) + t.identifier + seq![' '] + item_text(t)
    }
}

/// The text of an item: its name, and its tags in brackets if it has some.
pub fn item_text_chars(todo: &Todo) -> (r: Vec<char>)
    ensures
        r@ == item_text(todo@),
{
    let mut out = chars_of(todo.name.as_str());
    let tags = chars_of(todo.tags.as_str());
    if tags.len() > 0 {
        append_chars(&mut out, &vec![' ', '[']);
        append_chars(&mut out, &tags);
        append_chars(&mut out, &vec![']']);
    }
    assert(out@ =~= item_text(todo@));
    out
}

/// The line that shows `todo`.
pub fn render_todo_line(todo: &Todo, is_selected: bool) -> (r: String)
    ensures
        r@ == rendered_line(todo@, is_selected),
{
    let mut out: Vec<char> = if is_selected {
        vec!['>', ' ']
    } else {
        vec![' ', ' ']
    };
    let ident = chars_of(todo.identifier.as_str());
    append_chars(&mut out, &ident);
    append_chars(&mut out, &vec![' ']);
    let text = item_text_chars(todo);
    if todo.is_completed {
        append_chars(&mut out, &vec!['\x1b', '[', '9', 'm']);
        append_chars(&mut out, &text);
        append_chars(&mut out, &vec!['\x1b', '[', '2', '9', 'm']);
    } else {
        append_chars(&mut out, &text);
    }
    assert(out@ =~= rendered_line(todo@, is_selected));
    string_of(&out)
}

/// Takes the in-progress tag off the item, when it carries it as a token.
pub fn remove_inprogress_tag_from_local_state(todo: &mut Todo)
    ensures
        final(todo)@ == (TodoView {
            tags: if has_tag(old(todo)@.tags, in_progress()) {
                strip_tag(old(todo)@.tags, in_progress())
            } else {
                old(todo)@.tags
            },
            ..old(todo)@
        }),
{
    if has_in_progress(todo.tags.as_str()) {
        todo.tags = strip_in_progress(todo.tags.as_str());
    }
}

/// Whether the key is this plain character (any modifiers).
pub open spec fn is_char(key: Key, c: char) -> bool {
    key.code == KeyCode::Char(c)
}

/// The item as it is after its completion flipped: one that becomes
/// completed also loses its in-progress tag.
pub open spec fn flipped(t: TodoView) -> TodoView {
    if t.is_completed {
        TodoView { is_completed: false, ..t }
    } else {
        TodoView {
            is_completed: true,
            tags: if has_tag(t.tags, in_progress()) {
                strip_tag(t.tags, in_progress())
            } else {
                t.tags
            },
            ..t
        }
    }
}

impl SessionView {
    /// A session always shows a selected item.
    pub open spec fn wf(self) -> bool {
        self.todos.len() > 0 && self.selected < self.todos.len()
    }

    /// The selected item.
    pub open spec fn current(self) -> TodoView {
        self.todos[self.selected as int]
    }

    /// The next state and effect for a key.
    pub open spec fn on_key(self, key: Key) -> (SessionView, Effect) {
        let n = self.todos.len();
        let position = self.current().index as usize;
        if key.code == KeyCode::Esc || is_char(key, 'q') {
            (self, Effect::Quit)
        } else if is_char(key, 'l') && key.control {
            (SessionView { displayed: n, ..self }, Effect::RedrawAll)
        } else if key.code == KeyCode::Enter {
            (
                SessionView { displayed: n, ..self },
                Effect::ShowNotes { position, move_up: self.displayed as usize },
            )
        } else if key.code == KeyCode::Up || is_char(key, 'k') {
            if self.selected > 0 {
                (
                    SessionView { selected: (self.selected - 1) as nat, ..self },
                    Effect::Redraw { move_up: self.displayed as usize },
                )
            } else {
                (self, Effect::Nothing)
            }
        } else if key.code == KeyCode::Down || is_char(key, 'j') {
            if self.selected + 1 < n {
                (
                    SessionView { selected: self.selected + 1, ..self },
                    Effect::Redraw { move_up: self.displayed as usize },
                )
            } else {
                (self, Effect::Nothing)
            }
        } else if is_char(key, ' ') || is_char(key, 'x') {
            (
                self,
                Effect::ToggleCompletion {
                    position,
                    completed: self.current().is_completed,
                    archive: false,
                },
            )
        } else if is_char(key, '/') {
            (
                self,
                Effect::ToggleInProgress {
                    position,
                    has_tag: has_tag(self.current().tags, in_progress()),
                },
            )
        } else if is_char(key, 'r') || is_char(key, 'g') {
            (self, Effect::Refetch)
        } else if is_char(key, 'L') {
            (self, Effect::ArchiveAndRefetch)
        } else if is_char(key, 'X') {
            (
                self,
                Effect::ToggleCompletion {
                    position,
                    completed: self.current().is_completed,
                    archive: true,
                },
            )
        } else if is_char(key, '+') {
            (self, Effect::OpenEntry { move_up: self.displayed as usize })
        } else {
            (self, Effect::Nothing)
        }
    }

    /// The next state and effect once the store flipped the selected item's
    /// completion.
    pub open spec fn on_toggled(self, archive: bool) -> (SessionView, Effect) {
        let was = self.current().is_completed;
        (
            SessionView {
                todos: self.todos.update(self.selected as int, flipped(self.current())),
                ..self
            },
            if archive && !was {
                Effect::ArchiveAndRefetch
            } else {
                Effect::Redraw { move_up: self.displayed as usize }
            },
        )
    }

    /// The next state once the store answered a tag change with the item's
    /// new tags.
    pub open spec fn on_tags(self, reply: Seq<char>) -> (SessionView, Effect) {
        (
            SessionView {
                todos: self.todos.update(
                    self.selected as int,
                    TodoView { tags: trim(reply), ..self.current() },
                ),
                ..self
            },
            Effect::Redraw { move_up: self.displayed as usize },
        )
    }

    /// The next state once a fresh copy of the list arrived; an empty list
    /// ends the session.
    pub open spec fn on_snapshot(self, fresh: Seq<TodoView>) -> (SessionView, Effect) {
        if fresh.len() == 0 {
            (self, Effect::Finish)
        } else {
            (
                SessionView {
                    todos: fresh,
                    selected: if self.selected >= fresh.len() {
                        (fresh.len() - 1) as nat
                    } else {
                        self.selected
                    },
                    displayed: fresh.len(),
                },
                Effect::Redraw { move_up: self.displayed as usize },
            )
        }
    }

    /// The next state once a new item was added and the list fetched again:
    /// the first item is selected; an empty list ends the session.
    pub open spec fn on_created(self, fresh: Seq<TodoView>) -> (SessionView, Effect) {
        if fresh.len() == 0 {
            (self, Effect::Finish)
        } else {
            (
                SessionView { todos: fresh, selected: 0, displayed: fresh.len() },
                Effect::RedrawFromTop,
            )
        }
    }
}

impl Session {
    /// A session over a fetched list, with the first item selected and
    /// every item on screen; none for an empty list.
    pub fn start(todos: Vec<Todo>) -> (r: Option<Session>)
        ensures
            todos.len() == 0 <==> r is None,
            r matches Some(s) ==> s@ == (SessionView {
                todos: todo_views(todos@),
                selected: 0,
                displayed: todos.len() as nat,
            }),
    {
        if todos.len() == 0 {
            None
        } else {
            let n = todos.len();
            Some(Session { todos, selected: 0, displayed_count: n })
        }
    }

    /// The lines that show the list, the selected one marked.
    pub fn lines(&self) -> (r: Vec<String>)
        ensures
            r.len() == self.todos.len(),
            forall|i: int|
                0 <= i < r.len() ==> (#[trigger] r@[i])@ == rendered_line(
                    self@.todos[i],
                    i == self.selected,
                ),
    {
        let mut out: Vec<String> = Vec::new();
        let mut i: usize = 0;
        while i < self.todos.len()
            invariant
                i <= self.todos.len(),
                out.len() == i,
                forall|j: int|
                    0 <= j < i ==> (#[trigger] out@[j])@ == rendered_line(
                        self@.todos[j],
                        j == self.selected,
                    ),
            decreases self.todos.len() - i,
        {
            out.push(render_todo_line(&self.todos[i], i == self.selected));
            i += 1;
        }
        out
    }

    /// Handles one key.
    pub fn handle_key(&mut self, key: Key) -> (r: Effect)
        requires
            old(self)@.wf(),
        ensures
            final(self)@.wf(),
            (final(self)@, r) == old(self)@.on_key(key),
    {
        let n = self.todos.len();
        let position = self.todos[self.selected].index;
        let code = key.code;
        if code == KeyCode::Esc || code == KeyCode::Char('q') {
            Effect::Quit
        } else if code == KeyCode::Char('l') && key.control {
            self.displayed_count = n;
            Effect::RedrawAll
        } else if code == KeyCode::Enter {
            let move_up = self.displayed_count;
            self.displayed_count = n;
            Effect::ShowNotes { position, move_up }
        } else if code == KeyCode::Up || code == KeyCode::Char('k') {
            if self.selected > 0 {
                self.selected = self.selected - 1;
                Effect::Redraw { move_up: self.displayed_count }
            } else {
                Effect::Nothing
            }
        } else if code == KeyCode::Down || code == KeyCode::Char('j') {
            if self.selected + 1 < n {
                self.selected = self.selected + 1;
                Effect::Redraw { move_up: self.displayed_count }
            } else {
                Effect::Nothing
            }
        } else if code == KeyCode::Char(' ') || code == KeyCode::Char('x') {
            Effect::ToggleCompletion {
                position,
                completed: self.todos[self.selected].is_completed,
                archive: false,
            }
        } else if code == KeyCode::Char('/') {
            let has_tag = has_in_progress(self.todos[self.selected].tags.as_str());
            Effect::ToggleInProgress { position, has_tag }
        } else if code == KeyCode::Char('r') || code == KeyCode::Char('g') {
            Effect::Refetch
        } else if code == KeyCode::Char('L') {
            Effect::ArchiveAndRefetch
        } else if code == KeyCode::Char('X') {
            Effect::ToggleCompletion {
                position,
                completed: self.todos[self.selected].is_completed,
                archive: true,
            }
        } else if code == KeyCode::Char('+') {
            Effect::OpenEntry { move_up: self.displayed_count }
        } else {
            Effect::Nothing
        }
    }

    /// Records that the store flipped the selected item's completion.
    pub fn completion_toggled(&mut self, archive: bool) -> (r: Effect)
        requires
            old(self)@.wf(),
        ensures
            final(self)@.wf(),
            (final(self)@, r) == old(self)@.on_toggled(archive),
    {
        let sel = self.selected;
        let was = self.todos[sel].is_completed;
        let ghost before = todo_views(self.todos@);
        self.todos[sel].is_completed = !was;
        if !was {
            remove_inprogress_tag_from_local_state(&mut self.todos[sel]);
        }
        assert(todo_views(self.todos@) =~= before.update(sel as int, flipped(before[sel as int])));
        if archive && !was {
            Effect::ArchiveAndRefetch
        } else {
            Effect::Redraw { move_up: self.displayed_count }
        }
    }

    /// Adopts the tags that the store answered for the selected item.
    pub fn tags_changed(&mut self, reply: &str) -> (r: Effect)
        requires
            old(self)@.wf(),
        ensures
            final(self)@.wf(),
            (final(self)@, r) == old(self)@.on_tags(reply@),
    {
        let sel = self.selected;
        let ghost before = todo_views(self.todos@);
        let cs = chars_of(reply);
        let trimmed = trim_chars(&cs);
        self.todos[sel].tags = string_of(&trimmed);
        assert(todo_views(self.todos@) =~= before.update(
            sel as int,
            TodoView { tags: trim(reply@), ..before[sel as int] },
        ));
        Effect::Redraw { move_up: self.displayed_count }
    }

    /// Adopts a fresh copy of the list.
    pub fn snapshot_arrived(&mut self, fresh: Vec<Todo>) -> (r: Effect)
        requires
            old(self)@.wf(),
        ensures
            final(self)@.wf(),
            (final(self)@, r) == old(self)@.on_snapshot(todo_views(fresh@)),
    {
        if fresh.len() == 0 {
            return Effect::Finish;
        }
        let move_up = self.displayed_count;
        let n = fresh.len();
        self.todos = fresh;
        if self.selected >= n {
            self.selected = n - 1;
        }
        self.displayed_count = n;
        Effect::Redraw { move_up }
    }

    /// Adopts the list fetched after a new item was added.
    pub fn item_created(&mut self, fresh: Vec<Todo>) -> (r: Effect)
        requires
            old(self)@.wf(),
        ensures
            final(self)@.wf(),
            (final(self)@, r) == old(self)@.on_created(todo_views(fresh@)),
    {
        if fresh.len() == 0 {
            return Effect::Finish;
        }
        let n = fresh.len();
        self.todos = fresh;
        self.selected = 0;
        self.displayed_count = n;
        Effect::RedrawFromTop
    }
}

/// What the entry line does after a key.
#[derive(Clone, Debug)]
pub enum EntryStep {
    /// Keep reading keys; `redraw` asks to print the entry line again.
    Continue { redraw: bool },
    /// Create an item with this text.
    Submit(String),
    /// Leave without creating anything.
    Cancel,
}

/// The line where the text of a new item is typed.
pub struct TextEntry {
    /// What was typed so far.
    pub input: Vec<char>,
}

/// The entry line as shown: `+`, the base identifier the text would get,
/// then the text.
pub open spec fn prompt_line(input: Seq<char>) -> Seq<char> {
    seq!['+', ' '] + base_identifier(input) + seq![' '] + input
}

impl TextEntry {
    /// An empty entry line.
    pub fn new() -> (r: TextEntry)
        ensures
            r.input@ == Seq::<char>::empty(),
    {
        TextEntry { input: Vec::new() }
    }

    /// Handles one key: a character is typed, Backspace removes the last
    /// one, Enter submits the trimmed text (or cancels when it is blank) and
    /// Esc cancels.
    pub fn handle_key(&mut self, key: Key) -> (r: EntryStep)
        ensures
            match key.code {
                KeyCode::Char(c) => final(self).input@ == old(self).input@.push(c) && r
                    == EntryStep::Continue { redraw: true },
                KeyCode::Backspace => if old(self).input@.len() > 0 {
                    final(self).input@ == old(self).input@.drop_last() && r
                        == EntryStep::Continue { redraw: true }
                } else {
                    final(self).input@ == old(self).input@ && r == EntryStep::Continue {
                        redraw: false,
                    }
                },
                KeyCode::Enter => final(self).input@ == old(self).input@ && if trim(
                    old(self).input@,
                ).len() > 0 {
                    r matches EntryStep::Submit(t) && t@ == trim(old(self).input@)
                } else {
                    r matches EntryStep::Cancel
                },
                KeyCode::Esc => final(self).input@ == old(self).input@ && r
                    matches EntryStep::Cancel,
                _ => final(self).input@ == old(self).input@ && r == EntryStep::Continue {
                    redraw: false,
                },
            },
    {
        match key.code {
            KeyCode::Char(c) => {
                self.input.push(c);
                EntryStep::Continue { redraw: true }
            },
            KeyCode::Backspace => {
                if self.input.len() > 0 {
                    self.input.pop();
                    EntryStep::Continue { redraw: true }
                } else {
                    EntryStep::Continue { redraw: false }
                }
            },
            KeyCode::Enter => {
                let t = trim_chars(&self.input);
                if t.len() > 0 {
                    EntryStep::Submit(string_of(&t))
                } else {
                    EntryStep::Cancel
                }
            },
            KeyCode::Esc => EntryStep::Cancel,
            _ => EntryStep::Continue { redraw: false },
        }
    }

    /// The entry line to print.
    pub fn prompt(&self) -> (r: String)
        ensures
            r@ == prompt_line(self.input@),
    {
        let text = string_of(&self.input);
        let ident = Todo::generate_base_identifier(text.as_str());
        let mut out: Vec<char> = vec!['+', ' '];
        append_chars(&mut out, &chars_of(ident.as_str()));
        append_chars(&mut out, &vec![' ']);
        append_chars(&mut out, &self.input);
        assert(out@ =~= prompt_line(self.input@));
        string_of(&out)
    }
}

/// The placeholder shown for an item without notes.
pub open spec fn no_notes() -> Seq<char> {
    seq!['(', 'n', 'o', ' ', 'n', 'o', 't', 'e', 's', ')']
}

/// The notes as shown: trimmed, or a placeholder when blank.
pub fn notes_text(notes: &str) -> (r: String)
    ensures
        r@ == if trim(notes@).len() > 0 {
            trim(notes@)
        } else {
            no_notes()
        },
{
    let t = trim_chars(&chars_of(notes));
    if t.len() > 0 {
        string_of(&t)
    } else {
        let p = vec!['(', 'n', 'o', ' ', 'n', 'o', 't', 'e', 's', ')'];
        assert(p@ =~= no_notes());
        string_of(&p)
    }
}

/// Whether a key closes the notes view: Enter, Esc or `q`.
pub fn closes_notes(key: Key) -> (r: bool)
    ensures
        r == (key.code == KeyCode::Enter || key.code == KeyCode::Esc || key.code == KeyCode::Char(
            'q',
        )),
{
    key.code == KeyCode::Enter || key.code == KeyCode::Esc || key.code == KeyCode::Char('q')
}

} // verus!
