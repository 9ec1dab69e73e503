//! The text that the listing commands print, and the pick of a random item.

use rand::Rng;
use vstd::prelude::*;
use crate::commands::CommandError;
use crate::identifiers::CollisionOverflow;
use crate::lists::{parse_number, parsed_number, ListName};
use crate::session::{item_text, item_text_chars};
use crate::snapshot::{lines_chars, lines_of, parse_plain_listing, plain_entries, with_identifiers};
use crate::tags::{has_in_progress, has_tag, in_progress};
use crate::text::{append_chars, chars_of, string_of, trim, trim_chars, views};
use crate::todo::{Todo, TodoView, todo_views};

verus! {

/// The line that lists one item: its identifier and its text.
pub open spec fn listed_line(t: TodoView) -> Seq<char> {
    seq![' '] + t.identifier + seq![' '] + item_text(t)
}

/// A report: `empty` alone when there is no item, else `header` and one
/// line per item.
pub open spec fn report(ts: Seq<TodoView>, header: Seq<char>, empty: Seq<char>) -> Seq<Seq<char>> {
    if ts.len() == 0 {
        seq![empty]
    } else {
        seq![header] + ts.map_values(|t: TodoView| listed_line(t))
    }
}

/// The report of a list.
pub open spec fn list_report(list: ListName, ts: Seq<TodoView>) -> Seq<Seq<char>> {
    report(ts, list.spec_title() + " todos:"@, list.spec_title() + " is empty"@)
}

/// The items that carry the in-progress tag, in order.
pub open spec fn in_progress_items(ts: Seq<TodoView>) -> Seq<TodoView>
    decreases ts.len(),
{
    if ts.len() == 0 {
        ts
    } else if has_tag(ts.last().tags, in_progress()) {
        in_progress_items(ts.drop_last()).push(ts.last())
    } else {
        in_progress_items(ts.drop_last())
    }
}

/// The string views of a sequence of strings.
pub open spec fn line_views(v: Seq<String>) -> Seq<Seq<char>> {
    v.map_values(|s: String| s@)
}

/// Builds a report.
fn report_lines(todos: &[Todo], header: String, empty: String) -> (r: Vec<String>)
    ensures
        line_views(r@) == report(todo_views(todos@), header@, empty@),
{
    let ghost ts = todo_views(todos@);
    let mut out: Vec<String> = Vec::new();
    if todos.len() == 0 {
        out.push(empty);
        assert(line_views(out@) =~= report(ts, header@, empty@));
        return out;
    }
    out.push(header);
    let ghost h = out@[0]@;
    let mut i: usize = 0;
    while i < todos.len()
        invariant
            i <= todos.len(),
            ts == todo_views(todos@),
            line_views(out@) == seq![h] + ts.take(i as int).map_values(|t: TodoView| listed_line(t)),
        decreases todos.len() - i,
    {
        let mut line: Vec<char> = vec![' '];
        append_chars(&mut line, &chars_of(todos[i].identifier.as_str()));
        append_chars(&mut line, &vec![' ']);
        append_chars(&mut line, &item_text_chars(&todos[i]));
        assert(line@ =~= listed_line(ts[i as int]));
        let ghost before = line_views(out@);
        out.push(string_of(&line));
        assert(line_views(out@) =~= before.push(listed_line(ts[i as int])));
        assert(ts.take(i + 1).map_values(|t: TodoView| listed_line(t)) =~= ts.take(
            i as int,
        ).map_values(|t: TodoView| listed_line(t)).push(listed_line(ts[i as int])));
        i += 1;
    }
    assert(ts.take(i as int) =~= ts);
    out
}

/// The lines that list `todos` under the title of `list`.
pub fn show_list(list: ListName, todos: &[Todo]) -> (r: Vec<String>)
    ensures
        line_views(r@) == list_report(list, todo_views(todos@)),
{
    let mut header = String::from_str(list.title());
    header.append(" todos:");
    let mut empty = String::from_str(list.title());
    empty.append(" is empty");
    report_lines(todos, header, empty)
}

/// The lines that list the inbox, read from a plain listing of it.
pub fn show_inbox(listing: &str) -> (r: Result<Vec<String>, CollisionOverflow>)
    ensures
        ({
            let es = plain_entries(lines_of(trim(listing@)), false);
            &&& r is Err <==> crate::identifiers::overflows(
                crate::identifiers::bases_of(crate::snapshot::entry_names(es)),
            )
            &&& r matches Ok(v) ==> line_views(v@) == list_report(
                ListName::Inbox,
                with_identifiers(es),
            )
        }),
{
    match parse_plain_listing(listing, false) {
        Ok(todos) => Ok(show_list(ListName::Inbox, todos.as_slice())),
        Err(e) => Err(e),
    }
}

/// The lines that list today's items, read from a plain listing of them.
pub fn show_today(listing: &str) -> (r: Result<Vec<String>, CollisionOverflow>)
    ensures
        ({
            let es = plain_entries(lines_of(trim(listing@)), false);
            &&& r is Err <==> crate::identifiers::overflows(
                crate::identifiers::bases_of(crate::snapshot::entry_names(es)),
            )
            &&& r matches Ok(v) ==> line_views(v@) == list_report(
                ListName::Today,
                with_identifiers(es),
            )
        }),
{
    match parse_plain_listing(listing, false) {
        Ok(todos) => Ok(show_list(ListName::Today, todos.as_slice())),
        Err(e) => Err(e),
    }
}

/// The lines that list the items carrying the in-progress tag.
pub fn show_inprog(todos: &[Todo]) -> (r: Vec<String>)
    ensures
        line_views(r@) == report(
            in_progress_items(todo_views(todos@)),
            "In-progress todos:"@,
            "No in-progress todos"@,
        ),
{
    let ghost ts = todo_views(todos@);
    let mut kept: Vec<Todo> = Vec::new();
    let mut i: usize = 0;
    while i < todos.len()
        invariant
            i <= todos.len(),
            ts == todo_views(todos@),
            todo_views(kept@) == in_progress_items(ts.take(i as int)),
        decreases todos.len() - i,
    {
        assert(ts.take(i + 1).drop_last() =~= ts.take(i as int));
        if has_in_progress(todos[i].tags.as_str()) {
            let ghost before = todo_views(kept@);
            let t = todos[i].duplicate();
            kept.push(t);
            assert(todo_views(kept@) =~= before.push(ts[i as int]));
        }
        i += 1;
    }
    assert(ts.take(i as int) =~= ts);
    report_lines(
        kept.as_slice(),
        String::from_str("In-progress todos:"),
        String::from_str("No in-progress todos"),
    )
}

/// The lines that list today's completed items.
pub fn show_completed(todos: &[Todo]) -> (r: Vec<String>)
    ensures
        line_views(r@) == report(
            todo_views(todos@),
            "Completed today:"@,
            "No completed todos today"@,
        ),
{
    report_lines(
        todos,
        String::from_str("Completed today:"),
        String::from_str("No completed todos today"),
    )
}

/// The count line: the trimmed count, then `todo`, plural unless it is `1`.
pub fn count_line(count_output: &str) -> (r: String)
    ensures
        r@ == trim(count_output@) + " todo"@ + if trim(count_output@) == seq!['1'] {
            ""@
        } else {
            "s"@
        },
{
    let t = trim_chars(&chars_of(count_output));
    let one = vec!['1'];
    assert(one@ =~= seq!['1']);
    let mut out = string_of(&t);
    out.append(" todo");
    if crate::text::same_chars(&t, &one) {
        out.append("");
    } else {
        out.append("s");
    }
    out
}

/// The lines of the on-deck listing, or a message when there are none.
pub fn on_deck_lines(output: &str) -> (r: Vec<String>)
    ensures
        line_views(r@) == if trim(output@).len() == 0 {
            seq!["No on-deck todos"@]
        } else {
            lines_of(trim(output@))
        },
{
    let t = trim_chars(&chars_of(output));
    let mut out: Vec<String> = Vec::new();
    if t.len() == 0 {
        out.push(String::from_str("No on-deck todos"));
        assert(line_views(out@) =~= seq!["No on-deck todos"@]);
        return out;
    }
    let ls = lines_chars(&t);
    let mut i: usize = 0;
    while i < ls.len()
        invariant
            i <= ls.len(),
            line_views(out@) == views(ls@).take(i as int),
        decreases ls.len() - i,
    {
        let ghost before = line_views(out@);
        out.push(string_of(&ls[i]));
        assert(line_views(out@) =~= before.push(ls@[i as int]@));
        assert(views(ls@).take(i + 1) =~= views(ls@).take(i as int).push(ls@[i as int]@));
        i += 1;
    }
    assert(views(ls@).take(i as int) =~= views(ls@));
    out
}

/// Relies on `rand::Rng::gen_range` over `rand::thread_rng()`: a value of
/// the inclusive range `low..=high`, which must not be empty.
#[verifier::external_body]
fn random_in(low: usize, high: usize) -> (r: usize)
    requires
        low <= high,
    ensures
        low <= r <= high,
{
    rand::thread_rng().gen_range(low..=high)
}

/// Picks a random position among the items that the store counted: none
/// when the count is zero; fails when the count is not a number.
pub fn pick_random_position(count_output: &str) -> (r: Result<Option<usize>, CommandError>)
    ensures
        parsed_number(trim(count_output@)) is None <==> r matches Err(CommandError::BadCount),
        parsed_number(trim(count_output@)) == Some(0nat) <==> r matches Ok(None),
        r matches Ok(Some(p)) ==> 1 <= p <= parsed_number(trim(count_output@))->0,
{
    let t = string_of(&trim_chars(&chars_of(count_output)));
    match parse_number(t.as_str()) {
        None => Err(CommandError::BadCount),
        Some(n) => {
            if n == 0 {
                Ok(None)
            } else {
                Ok(Some(random_in(1, n)))
            }
        },
    }
}

} // verus!
