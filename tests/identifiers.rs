use thingy::identifiers::{assign_identifiers, identifiers_for_bases, resolve_collision};
use thingy::todo::Todo;

fn make_todo(name: &str, index: usize) -> Todo {
    Todo {
        name: name.to_string(),
        tags: String::new(),
        is_completed: false,
        index,
        identifier: String::new(),
    }
}

#[test]
fn test_basic_identifier_generation() {
    let mut todos = vec![
        make_todo("fooitem", 1),
        make_todo("Buy milk", 2),
        make_todo("Call mom", 3),
    ];

    assign_identifiers(&mut todos).unwrap();

    assert_eq!(todos[0].identifier, "FOO");
    assert_eq!(todos[1].identifier, "BUY");
    assert_eq!(todos[2].identifier, "CAL");
}

#[test]
fn test_short_names() {
    let mut todos = vec![make_todo("hi", 1), make_todo("a", 2), make_todo("ab", 3)];

    assign_identifiers(&mut todos).unwrap();

    assert_eq!(todos[0].identifier, "HI");
    assert_eq!(todos[1].identifier, "A");
    assert_eq!(todos[2].identifier, "AB");
}

#[test]
fn test_empty_and_whitespace() {
    let mut todos = vec![make_todo("", 1), make_todo("  ", 2), make_todo("   \t\n", 3)];

    assign_identifiers(&mut todos).unwrap();

    assert_eq!(todos[0].identifier, "___");
    assert_eq!(todos[1].identifier, "__1");
    assert_eq!(todos[2].identifier, "__2");
}

#[test]
fn test_numbers() {
    let mut todos = vec![make_todo("123 test", 1), make_todo("456", 2)];

    assign_identifiers(&mut todos).unwrap();

    assert_eq!(todos[0].identifier, "123");
    assert_eq!(todos[1].identifier, "456");
}

#[test]
fn test_basic_collision() {
    let mut todos = vec![
        make_todo("Hello world", 1),
        make_todo("Hello there", 2),
        make_todo("Hello again", 3),
    ];

    assign_identifiers(&mut todos).unwrap();

    assert_eq!(todos[0].identifier, "HEL");
    assert_eq!(todos[1].identifier, "HE1");
    assert_eq!(todos[2].identifier, "HE2");
}

#[test]
fn test_many_collisions() {
    let mut todos: Vec<Todo> = (0..15)
        .map(|i| make_todo(&format!("Hello {}", i), i + 1))
        .collect();

    assign_identifiers(&mut todos).unwrap();

    assert_eq!(todos[0].identifier, "HEL");
    assert_eq!(todos[1].identifier, "HE1");
    assert_eq!(todos[9].identifier, "HE9");
    assert_eq!(todos[10].identifier, "H10");
    assert_eq!(todos[11].identifier, "H11");
    assert_eq!(todos[14].identifier, "H14");
}

#[test]
fn test_three_digit_collisions() {
    let mut todos: Vec<Todo> = (0..105)
        .map(|i| make_todo(&format!("Hello {}", i), i + 1))
        .collect();

    assign_identifiers(&mut todos).unwrap();

    assert_eq!(todos[0].identifier, "HEL");
    assert_eq!(todos[99].identifier, "H99");
    assert_eq!(todos[100].identifier, "100");
    assert_eq!(todos[101].identifier, "101");
    assert_eq!(todos[104].identifier, "104");
}

#[test]
fn test_special_characters() {
    let mut todos = vec![
        make_todo("#!/bin/bash", 1),
        make_todo("call Jeremy", 2),
        make_todo("@mention", 3),
    ];

    assign_identifiers(&mut todos).unwrap();

    assert_eq!(todos[0].identifier, "#!/");
    assert_eq!(todos[1].identifier, "CAL");
    assert_eq!(todos[2].identifier, "@ME");
}

#[test]
fn test_unicode() {
    let mut todos = vec![make_todo("café", 1), make_todo("naïve", 2), make_todo("日本語", 3)];

    assign_identifiers(&mut todos).unwrap();

    assert_eq!(todos[0].identifier, "CAF");
    assert_eq!(todos[1].identifier, "NAÏ");
    assert_eq!(todos[2].identifier, "日本語");
}

#[test]
fn test_short_name_collisions() {
    let mut todos = vec![make_todo("ab", 1), make_todo("AB", 2), make_todo("Ab", 3)];

    assign_identifiers(&mut todos).unwrap();

    assert_eq!(todos[0].identifier, "AB");
    assert_eq!(todos[1].identifier, "A1");
    assert_eq!(todos[2].identifier, "A2");
}

#[test]
fn test_single_char_collisions() {
    let mut todos = vec![make_todo("a", 1), make_todo("A", 2), make_todo("a ", 3)];

    assign_identifiers(&mut todos).unwrap();

    assert_eq!(todos[0].identifier, "A");
    assert_eq!(todos[1].identifier, "1");
    assert_eq!(todos[2].identifier, "2");
}

#[test]
fn test_uniqueness() {
    let mut todos = vec![
        make_todo("Buy groceries", 1),
        make_todo("Call dentist", 2),
        make_todo("Buy tickets", 3),
        make_todo("Buy coffee", 4),
        make_todo("Finish report", 5),
    ];

    assign_identifiers(&mut todos).unwrap();

    let ids: Vec<String> = todos.iter().map(|t| t.identifier.clone()).collect();
    let unique_ids: std::collections::HashSet<_> = ids.iter().collect();

    assert_eq!(ids.len(), unique_ids.len(), "All identifiers must be unique");
}

#[test]
fn collision_overflow_is_reported() {
    let mut todos: Vec<Todo> = (0..1001)
        .map(|i| make_todo(&format!("Hello {}", i), i + 1))
        .collect();

    let err = assign_identifiers(&mut todos).unwrap_err();

    assert_eq!(err.base, "HEL");
    assert!(todos.iter().all(|t| t.identifier.is_empty()));
}

#[test]
fn thousand_repeats_still_fit() {
    let mut todos: Vec<Todo> = (0..1000)
        .map(|i| make_todo(&format!("Hello {}", i), i + 1))
        .collect();

    assign_identifiers(&mut todos).unwrap();

    assert_eq!(todos[999].identifier, "999");
}

#[test]
fn assignment_keeps_other_fields() {
    let mut todos = vec![Todo {
        name: "Walk dog".to_string(),
        tags: "home".to_string(),
        is_completed: true,
        index: 7,
        identifier: "old".to_string(),
    }];

    assign_identifiers(&mut todos).unwrap();

    assert_eq!(todos[0].identifier, "WAL");
    assert_eq!(todos[0].name, "Walk dog");
    assert_eq!(todos[0].tags, "home");
    assert!(todos[0].is_completed);
    assert_eq!(todos[0].index, 7);
}

#[test]
fn distinct_across_mixed_batch() {
    let mut todos: Vec<Todo> = (0..30)
        .map(|i| make_todo(if i % 2 == 0 { "Read book" } else { "Write code" }, i + 1))
        .collect();

    assign_identifiers(&mut todos).unwrap();

    let unique: std::collections::HashSet<_> = todos.iter().map(|t| t.identifier.clone()).collect();
    assert_eq!(unique.len(), 30);
    assert_eq!(todos[0].identifier, "REA");
    assert_eq!(todos[1].identifier, "WRI");
    assert_eq!(todos[2].identifier, "RE1");
    assert_eq!(todos[22].identifier, "R11");
}

#[test]
fn base_identifier_examples() {
    assert_eq!(Todo::generate_base_identifier(""), "___");
    assert_eq!(Todo::generate_base_identifier("a"), "A");
    assert_eq!(Todo::generate_base_identifier("café"), "CAF");
    assert_eq!(Todo::generate_base_identifier("日本語xyz"), "日本語");
    assert_eq!(Todo::generate_base_identifier("  b u y"), "BUY");
    assert_eq!(Todo::generate_base_identifier(" \t "), "___");
}

#[test]
fn collision_codes() {
    assert_eq!(resolve_collision("HEL", 1), "HE1");
    assert_eq!(resolve_collision("HEL", 9), "HE9");
    assert_eq!(resolve_collision("HEL", 10), "H10");
    assert_eq!(resolve_collision("HE", 42), "42");
    assert_eq!(resolve_collision("A", 3), "3");
    assert_eq!(resolve_collision("A", 12), "12");
    assert_eq!(resolve_collision("HEL", 100), "100");
    assert_eq!(resolve_collision("HEL", 999), "999");
}

fn strings(words: &[&str]) -> Vec<String> {
    words.iter().map(|w| w.to_string()).collect()
}

#[test]
fn identifiers_from_base_codes() {
    let ids = identifiers_for_bases(&strings(&["HEL", "CAL", "HEL", "HEL"])).unwrap();
    assert_eq!(ids, strings(&["HEL", "CAL", "HE1", "HE2"]));
    let bases: Vec<String> = (0..1001).map(|_| "AB".to_string()).collect();
    assert_eq!(identifiers_for_bases(&bases).unwrap_err().base, "AB");
    assert!(identifiers_for_bases(&[]).unwrap().is_empty());
}

#[test]
fn codes_of_different_bases_can_coincide() {
    let mut todos = vec![
        make_todo("Hello", 1),
        make_todo("Hello", 2),
        make_todo("Hexagon", 3),
        make_todo("Hexagon", 4),
    ];

    assign_identifiers(&mut todos).unwrap();

    assert_eq!(todos[1].identifier, "HE1");
    assert_eq!(todos[3].identifier, "HE1");
}
