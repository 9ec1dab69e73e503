use thingy::session::{
    closes_notes, notes_text, remove_inprogress_tag_from_local_state, render_todo_line, Effect,
    EntryStep, Key, KeyCode, Session, TextEntry,
};
use thingy::snapshot::parse_status_listing;
use thingy::todo::Todo;

fn item(name: &str, tags: &str, done: bool, index: usize, id: &str) -> Todo {
    Todo {
        name: name.to_string(),
        tags: tags.to_string(),
        is_completed: done,
        index,
        identifier: id.to_string(),
    }
}

fn key(c: char) -> Key {
    Key { code: KeyCode::Char(c), control: false }
}

fn special(code: KeyCode) -> Key {
    Key { code, control: false }
}

#[test]
fn down_then_space_completes_second_item() {
    let todos = vec![
        item("Buy milk", "", false, 1, "BUY"),
        item("Call mom", "in-progress, home", false, 2, "CAL"),
    ];
    let mut s = Session::start(todos).unwrap();

    assert_eq!(s.handle_key(special(KeyCode::Down)), Effect::Redraw { move_up: 2 });
    assert_eq!(s.selected, 1);

    let effect = s.handle_key(key(' '));
    assert_eq!(effect, Effect::ToggleCompletion { position: 2, completed: false, archive: false });

    let after = s.completion_toggled(false);
    assert_eq!(after, Effect::Redraw { move_up: 2 });
    assert!(s.todos[1].is_completed);
    assert_eq!(s.todos[1].tags, "home");
    assert!(!s.todos[0].is_completed);
}

#[test]
fn plus_typing_and_enter_creates_then_selects_first() {
    let todos = vec![item("Buy milk", "", false, 1, "BUY"), item("Call mom", "", false, 2, "CAL")];
    let mut s = Session::start(todos).unwrap();
    s.handle_key(special(KeyCode::Down));

    assert_eq!(s.handle_key(key('+')), Effect::OpenEntry { move_up: 2 });

    let mut entry = TextEntry::new();
    for c in "buy milk".chars() {
        assert!(matches!(entry.handle_key(key(c)), EntryStep::Continue { redraw: true }));
    }
    assert_eq!(entry.prompt(), "+ BUY buy milk");
    match entry.handle_key(special(KeyCode::Enter)) {
        EntryStep::Submit(text) => assert_eq!(text, "buy milk"),
        other => panic!("expected a submission, got {:?}", other),
    }

    let fresh = parse_status_listing(
        "NOTCOMPLETED|Buy milk|\nNOTCOMPLETED|Call mom|\nNOTCOMPLETED|buy milk|\n",
    )
    .unwrap();
    assert_eq!(s.item_created(fresh), Effect::RedrawFromTop);
    assert_eq!(s.selected, 0);
    assert_eq!(s.todos.len(), 3);
    assert_eq!(s.displayed_count, 3);
    assert_eq!(s.todos[2].identifier, "BU1");
}

#[test]
fn empty_list_gives_no_session() {
    assert!(Session::start(Vec::new()).is_none());
}

#[test]
fn selection_stays_within_bounds() {
    let mut s = Session::start(vec![item("A", "", false, 1, "A"), item("B", "", false, 2, "B")]).unwrap();
    assert_eq!(s.handle_key(key('k')), Effect::Nothing);
    assert_eq!(s.handle_key(key('j')), Effect::Redraw { move_up: 2 });
    assert_eq!(s.handle_key(key('j')), Effect::Nothing);
    assert_eq!(s.selected, 1);
    assert_eq!(s.handle_key(special(KeyCode::Up)), Effect::Redraw { move_up: 2 });
    assert_eq!(s.selected, 0);
}

#[test]
fn keys_map_to_effects() {
    let mut s = Session::start(vec![item("Read", "in-progress", true, 4, "REA")]).unwrap();
    assert_eq!(s.handle_key(key('q')), Effect::Quit);
    assert_eq!(s.handle_key(special(KeyCode::Esc)), Effect::Quit);
    assert_eq!(s.handle_key(key('/')), Effect::ToggleInProgress { position: 4, has_tag: true });
    assert_eq!(s.handle_key(key('r')), Effect::Refetch);
    assert_eq!(s.handle_key(key('g')), Effect::Refetch);
    assert_eq!(s.handle_key(key('L')), Effect::ArchiveAndRefetch);
    assert_eq!(
        s.handle_key(key('X')),
        Effect::ToggleCompletion { position: 4, completed: true, archive: true }
    );
    assert_eq!(s.handle_key(key('l')), Effect::Nothing);
    assert_eq!(s.handle_key(Key { code: KeyCode::Char('l'), control: true }), Effect::RedrawAll);
    assert_eq!(
        s.handle_key(special(KeyCode::Enter)),
        Effect::ShowNotes { position: 4, move_up: 1 }
    );
    assert_eq!(s.handle_key(key('z')), Effect::Nothing);
}

#[test]
fn archive_after_completion_only_when_newly_done() {
    let mut s = Session::start(vec![item("Read", "", false, 1, "REA")]).unwrap();
    assert_eq!(s.completion_toggled(true), Effect::ArchiveAndRefetch);
    assert!(s.todos[0].is_completed);
    assert_eq!(s.completion_toggled(true), Effect::Redraw { move_up: 1 });
    assert!(!s.todos[0].is_completed);
}

#[test]
fn tag_reply_is_trimmed() {
    let mut s = Session::start(vec![item("Read", "", false, 1, "REA")]).unwrap();
    assert_eq!(s.tags_changed("in-progress\n"), Effect::Redraw { move_up: 1 });
    assert_eq!(s.todos[0].tags, "in-progress");
}

#[test]
fn refetch_clamps_selection_and_reports_old_height() {
    let mut s = Session::start(vec![
        item("A", "", false, 1, "A"),
        item("B", "", false, 2, "B"),
        item("C", "", false, 3, "C"),
    ])
    .unwrap();
    s.handle_key(key('j'));
    s.handle_key(key('j'));
    let fresh = vec![item("A", "", false, 1, "A")];
    assert_eq!(s.snapshot_arrived(fresh), Effect::Redraw { move_up: 3 });
    assert_eq!(s.selected, 0);
    assert_eq!(s.displayed_count, 1);
    assert_eq!(s.snapshot_arrived(Vec::new()), Effect::Finish);
    assert_eq!(s.todos.len(), 1);
}

#[test]
fn render_lines() {
    assert_eq!(render_todo_line(&item("Buy milk", "", false, 1, "BUY"), true), "> BUY Buy milk");
    assert_eq!(
        render_todo_line(&item("Buy milk", "shop, home", false, 1, "BUY"), false),
        "  BUY Buy milk [shop, home]"
    );
    assert_eq!(
        render_todo_line(&item("Buy milk", "x", true, 1, "BUY"), false),
        "  BUY \x1b[9mBuy milk [x]\x1b[29m"
    );
    let s = Session::start(vec![item("A", "", false, 1, "A"), item("B", "", true, 2, "B")]).unwrap();
    assert_eq!(s.lines(), vec!["> A A".to_string(), "  B \x1b[9mB\x1b[29m".to_string()]);
}

#[test]
fn local_tag_removal_uses_whole_tokens() {
    let mut t = item("A", "in-progress, home", false, 1, "A");
    remove_inprogress_tag_from_local_state(&mut t);
    assert_eq!(t.tags, "home");

    let mut u = item("A", "home, in-progress", false, 1, "A");
    remove_inprogress_tag_from_local_state(&mut u);
    assert_eq!(u.tags, "home");

    let mut v = item("A", "in-progress-ish", false, 1, "A");
    remove_inprogress_tag_from_local_state(&mut v);
    assert_eq!(v.tags, "in-progress-ish");

    let mut w = item("A", "in-progress", false, 1, "A");
    remove_inprogress_tag_from_local_state(&mut w);
    assert_eq!(w.tags, "");
}

#[test]
fn entry_editing() {
    let mut e = TextEntry::new();
    assert_eq!(e.prompt(), "+ ___ ");
    assert!(matches!(e.handle_key(special(KeyCode::Backspace)), EntryStep::Continue { redraw: false }));
    e.handle_key(key('a'));
    e.handle_key(key('b'));
    assert!(matches!(e.handle_key(special(KeyCode::Backspace)), EntryStep::Continue { redraw: true }));
    assert_eq!(e.prompt(), "+ A a");
    assert!(matches!(e.handle_key(special(KeyCode::Up)), EntryStep::Continue { redraw: false }));
    assert!(matches!(e.handle_key(special(KeyCode::Esc)), EntryStep::Cancel));

    let mut blank = TextEntry::new();
    blank.handle_key(key(' '));
    assert!(matches!(blank.handle_key(special(KeyCode::Enter)), EntryStep::Cancel));
}

#[test]
fn notes_view_helpers() {
    assert_eq!(notes_text("  call first \n"), "call first");
    assert_eq!(notes_text(" \n "), "(no notes)");
    assert!(closes_notes(special(KeyCode::Enter)));
    assert!(closes_notes(special(KeyCode::Esc)));
    assert!(closes_notes(key('q')));
    assert!(!closes_notes(key('x')));
}
