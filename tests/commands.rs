use thingy::commands::{
    parse_add_args, parse_complete_args, parse_list_and_identifier, parse_move_args,
    resolve_move_target, resolve_targets, target_list, CommandError,
};
use thingy::lists::{keyword_list, lowercase_list, parse_list_name, parse_number, ListName};
use thingy::reports::{
    count_line, on_deck_lines, pick_random_position, show_completed, show_inbox, show_inprog,
    show_list, show_today,
};
use thingy::snapshot::{
    parse_plain_listing, parse_status_listing, read_plain_lines, read_status_lines, status_line,
};
use thingy::todo::Todo;

fn args(words: &[&str]) -> Vec<String> {
    words.iter().map(|w| w.to_string()).collect()
}

fn listing() -> Vec<Todo> {
    parse_plain_listing("Buy milk|\nCall mom|home\nBuy eggs|\n", false).unwrap()
}

#[test]
fn list_names() {
    assert_eq!(parse_list_name("inbox"), Ok("Inbox"));
    assert_eq!(parse_list_name("TODAY"), Ok("Today"));
    assert_eq!(
        parse_list_name("later"),
        Err("Unknown list 'later'. Valid lists: inbox, today".to_string())
    );
}

#[test]
fn numbers_parse_like_usize() {
    assert_eq!(parse_number("42"), Some(42));
    assert_eq!(parse_number("+7"), Some(7));
    assert_eq!(parse_number("0"), Some(0));
    assert_eq!(parse_number(""), None);
    assert_eq!(parse_number("+"), None);
    assert_eq!(parse_number("-1"), None);
    assert_eq!(parse_number("4a"), None);
    assert_eq!(parse_number("99999999999999999999999"), None);
}

#[test]
fn plain_listing_parses_positions_and_tags() {
    let todos = listing();
    assert_eq!(todos.len(), 3);
    assert_eq!(todos[1].name, "Call mom");
    assert_eq!(todos[1].tags, "home");
    assert_eq!(todos[1].index, 2);
    assert_eq!(todos[2].identifier, "BU1");
    assert!(!todos[0].is_completed);
    let done = parse_plain_listing("Old|\r\n", true).unwrap();
    assert_eq!(done[0].name, "Old");
    assert!(done[0].is_completed);
    assert!(parse_plain_listing("  \n ", false).unwrap().is_empty());
}

#[test]
fn status_listing_skips_short_lines_but_keeps_positions() {
    let todos = parse_status_listing("COMPLETED|Walk|outside\nbroken\nNOTCOMPLETED|Read|").unwrap();
    assert_eq!(todos.len(), 2);
    assert!(todos[0].is_completed);
    assert_eq!(todos[0].tags, "outside");
    assert_eq!(todos[1].index, 3);
    assert_eq!(todos[1].name, "Read");
    assert_eq!(todos[1].tags, "");
}

#[test]
fn status_line_round_trip() {
    let t = Todo {
        name: "Pay rent".to_string(),
        tags: "home, in-progress".to_string(),
        is_completed: true,
        index: 1,
        identifier: String::new(),
    };
    let line = status_line(&t);
    assert_eq!(line, "COMPLETED|Pay rent|home, in-progress");
    let back = parse_status_listing(&line).unwrap();
    assert_eq!(back[0].name, t.name);
    assert_eq!(back[0].tags, t.tags);
    assert_eq!(back[0].is_completed, t.is_completed);

    let open = Todo { is_completed: false, tags: String::new(), ..t };
    let back = parse_status_listing(&status_line(&open)).unwrap();
    assert_eq!(back[0].name, "Pay rent");
    assert_eq!(back[0].tags, "");
    assert!(!back[0].is_completed);
}

#[test]
fn addressing_items() {
    let todos = listing();
    assert!(matches!(parse_list_and_identifier(&[], &todos), Err(CommandError::MissingIdentifier)));
    assert_eq!(parse_list_and_identifier(&args(&["cal"]), &todos).unwrap(), (ListName::Today, 2));
    assert_eq!(parse_list_and_identifier(&args(&["inbox", "3"]), &todos).unwrap(), (ListName::Inbox, 3));
    assert_eq!(parse_list_and_identifier(&args(&["today", "0"]), &todos).ok(), None);
    match parse_list_and_identifier(&args(&["later", "BUY"]), &todos) {
        Err(CommandError::UnknownList(w)) => assert_eq!(w, "later"),
        other => panic!("unexpected {:?}", other),
    }
    match parse_list_and_identifier(&args(&["zzz"]), &todos) {
        Err(CommandError::NotFound(w)) => assert_eq!(w, "zzz"),
        other => panic!("unexpected {:?}", other),
    }
    assert_eq!(target_list(&args(&["Inbox", "x"])), ListName::Inbox);
    assert_eq!(target_list(&args(&["Inbox"])), ListName::Today);
    assert_eq!(target_list(&args(&["nope", "x"])), ListName::Today);
}

#[test]
fn add_arguments() {
    assert!(matches!(parse_add_args(&[], ListName::Today), Err(CommandError::MissingText)));
    assert!(matches!(parse_add_args(&args(&["inbox"]), ListName::Today), Err(CommandError::MissingText)));
    let (l, t) = parse_add_args(&args(&["inbox", "buy", "milk"]), ListName::Today).unwrap();
    assert_eq!((l, t.as_str()), (ListName::Inbox, "buy milk"));
    let (l, t) = parse_add_args(&args(&["buy", "milk"]), ListName::Inbox).unwrap();
    assert_eq!((l, t.as_str()), (ListName::Inbox, "buy milk"));
}

#[test]
fn complete_targets_are_sorted_high_first() {
    let todos = listing();
    let (l, ids) = parse_complete_args(&args(&["today", "buy", "3", "CAL"])).unwrap();
    assert_eq!(l, ListName::Today);
    assert_eq!(ids, args(&["buy", "3", "CAL"]));
    assert_eq!(resolve_targets(&ids, &todos).unwrap(), vec![3, 2, 1]);
    match resolve_targets(&args(&["BUY", "nope", "also"]), &todos) {
        Err(CommandError::NotFound(w)) => assert_eq!(w, "nope"),
        other => panic!("unexpected {:?}", other),
    }
    assert!(matches!(resolve_targets(&[], &todos), Err(CommandError::MissingIdentifier)));
    assert!(matches!(parse_complete_args(&args(&["inbox"])), Err(CommandError::MissingIdentifier)));
    let (l, ids) = parse_complete_args(&args(&["bu1"])).unwrap();
    assert_eq!((l, ids), (ListName::Today, args(&["bu1"])));
}

#[test]
fn move_arguments() {
    let (f, w, t) = parse_move_args(&args(&["BUY"])).unwrap();
    assert_eq!((f, w.as_str(), t), (ListName::Inbox, "BUY", ListName::Today));
    let (f, w, t) = parse_move_args(&args(&["today", "2", "inbox"])).unwrap();
    assert_eq!((f, w.as_str(), t), (ListName::Today, "2", ListName::Inbox));
    match parse_move_args(&args(&["today", "2", "someday"])) {
        Err(CommandError::UnknownList(w)) => assert_eq!(w, "someday"),
        other => panic!("unexpected {:?}", other),
    }
    let todos = listing();
    assert_eq!(resolve_move_target("bu1", &todos).unwrap(), 3);
    assert_eq!(resolve_move_target("5", &todos).unwrap(), 5);
    assert!(matches!(resolve_move_target("0", &todos), Err(CommandError::InvalidNumber(_))));
    assert!(matches!(resolve_move_target("QQQ", &todos), Err(CommandError::NotFound(_))));
}

#[test]
fn listing_reports() {
    assert_eq!(
        show_today("Buy milk|\nCall mom|home\n").unwrap(),
        vec!["Today todos:".to_string(), " BUY Buy milk".to_string(), " CAL Call mom [home]".to_string()]
    );
    assert_eq!(show_inbox("\n").unwrap(), vec!["Inbox is empty".to_string()]);
    assert_eq!(show_list(ListName::Inbox, &listing())[0], "Inbox todos:");
    let todos = parse_plain_listing("A|in-progress, x\nB|in-progress-not\nC|x, in-progress", false).unwrap();
    assert_eq!(
        show_inprog(&todos),
        vec![
            "In-progress todos:".to_string(),
            " A A [in-progress, x]".to_string(),
            " C C [x, in-progress]".to_string()
        ]
    );
    assert_eq!(show_inprog(&[]), vec!["No in-progress todos".to_string()]);
    assert_eq!(show_completed(&[]), vec!["No completed todos today".to_string()]);
    assert_eq!(show_completed(&todos)[0], "Completed today:");
}

#[test]
fn counts_and_on_deck() {
    assert_eq!(count_line("1\n"), "1 todo");
    assert_eq!(count_line(" 3 "), "3 todos");
    assert_eq!(on_deck_lines("\n"), vec!["No on-deck todos".to_string()]);
    assert_eq!(on_deck_lines("A [on-deck]\nB [on-deck]\n"), vec!["A [on-deck]".to_string(), "B [on-deck]".to_string()]);
}

#[test]
fn random_pick_stays_in_range() {
    assert!(matches!(pick_random_position("abc"), Err(CommandError::BadCount)));
    assert_eq!(pick_random_position("0\n").unwrap(), None);
    assert_eq!(pick_random_position("1").unwrap(), Some(1));
    let mut seen = std::collections::HashSet::new();
    for _ in 0..200 {
        let p = pick_random_position("4\n").unwrap().unwrap();
        assert!((1..=4).contains(&p));
        seen.insert(p);
    }
    assert!(seen.len() > 1);
}

#[test]
fn list_words_after_case_folding() {
    assert_eq!(lowercase_list("inbox"), Some(ListName::Inbox));
    assert_eq!(lowercase_list("today"), Some(ListName::Today));
    assert_eq!(lowercase_list("Today"), None);
    assert_eq!(keyword_list("ToDaY"), Some(ListName::Today));
    assert_eq!(keyword_list("INBOX"), Some(ListName::Inbox));
    assert_eq!(ListName::Inbox.title(), "Inbox");
}

#[test]
fn reading_lines_without_trimming() {
    let todos = read_status_lines("COMPLETED|Walk|\r\nNOTCOMPLETED| Read |x").unwrap();
    assert_eq!(todos.len(), 2);
    assert_eq!(todos[0].tags, "");
    assert_eq!(todos[1].name, " Read ");
    assert_eq!(todos[1].identifier, "REA");
    let plain = read_plain_lines("\nTea|", false).unwrap();
    assert_eq!(plain.len(), 2);
    assert_eq!(plain[0].name, "");
    assert_eq!(plain[0].identifier, "___");
    assert_eq!(plain[1].index, 2);
    assert!(read_plain_lines("", false).unwrap().is_empty());
}
