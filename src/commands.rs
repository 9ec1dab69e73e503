//! What the one-shot commands decide from their arguments and from a
//! fetched list, before anything is sent to the store.

use vstd::prelude::*;
use crate::identifiers::string_views;
use crate::lists::{keyword_list, list_keyword, parse_number, parsed_number, uppercase_of, ListName};
use crate::text::{chars_of, join_chars, join_with, string_of, views};
use crate::todo::{Todo, TodoView, todo_views};

verus! {

broadcast use vstd::seq_lib::to_multiset_insert;

/// Why a command cannot go ahead.
#[derive(Debug, Clone)]
pub enum CommandError {
    /// No identifier or number was given.
    MissingIdentifier,
    /// No text was given for a new item.
    MissingText,
    /// A word that should name a list names none.
    UnknownList(String),
    /// No item answers to this identifier or number.
    NotFound(String),
    /// A number that must be positive is not.
    InvalidNumber(String),
    /// The count that the store reported is not a number.
    BadCount,
}

/// Whether `r` failed on a word that names no list.
pub open spec fn unknown_list<T>(r: Result<T, CommandError>, word: Seq<char>) -> bool {
    match r {
        Err(CommandError::UnknownList(w)) => w@ == word,
        _ => false,
    }
}

/// Whether `r` failed on a word that addresses no item.
pub open spec fn not_found<T>(r: Result<T, CommandError>, word: Seq<char>) -> bool {
    match r {
        Err(CommandError::NotFound(w)) => w@ == word,
        _ => false,
    }
}

/// Whether `r` failed on a number that is not positive.
pub open spec fn invalid_number<T>(r: Result<T, CommandError>, word: Seq<char>) -> bool {
    match r {
        Err(CommandError::InvalidNumber(w)) => w@ == word,
        _ => false,
    }
}

/// Whether `r` is a move from `from`, of the item `word` addresses, to `to`.
pub open spec fn moves(
    r: Result<(ListName, String, ListName), CommandError>,
    from: ListName,
    word: Seq<char>,
    to: ListName,
) -> bool {
    match r {
        Ok((f, w, t)) => f == from && w@ == word && t == to,
        _ => false,
    }
}

/// The position of the first item whose identifier is `id`.
pub open spec fn position_of(todos: Seq<TodoView>, id: Seq<char>) -> Option<nat>
    decreases todos.len(),
{
    if todos.len() == 0 {
        None
    } else if todos[0].identifier == id {
        Some(todos[0].index)
    } else {
        position_of(todos.skip(1), id)
    }
}

/// The position an argument points at: a positive number is taken as it
/// is; any other word is an identifier, matched after upper-casing.
pub open spec fn address_of(word: Seq<char>, todos: Seq<TodoView>) -> Option<nat> {
    match parsed_number(word) {
        Some(n) if n > 0 => Some(n),
        _ => position_of(todos, uppercase_of(word)),
    }
}

/// The upper-case form of `word`, as characters.
fn upper_chars(word: &str) -> (r: Vec<char>)
    ensures
        r@ == uppercase_of(word@),
{
    let u = crate::lists::upper(word);
    chars_of(u.as_str())
}

/// The position of the first item whose identifier is `id`.
pub fn find_identifier(todos: &[Todo], id: &Vec<char>) -> (r: Option<usize>)
    ensures
        r matches Some(p) ==> position_of(todo_views(todos@), id@) == Some(p as nat),
        r is None ==> position_of(todo_views(todos@), id@) is None,
{
    let ghost all = todo_views(todos@);
    let mut k: usize = 0;
    assert(all.skip(0) =~= all);
    while k < todos.len()
        invariant
            k <= todos.len(),
            all == todo_views(todos@),
            position_of(all, id@) == position_of(all.skip(k as int), id@),
        decreases todos.len() - k,
    {
        let ident = chars_of(todos[k].identifier.as_str());
        assert(all.skip(k as int)[0] == todos@[k as int]@);
        if crate::text::same_chars(&ident, id) {
            return Some(todos[k].index);
        }
        assert(all.skip(k as int).skip(1) =~= all.skip(k + 1));
        k += 1;
    }
    None
}

/// The position that `word` points at among `todos`.
pub fn resolve_address(word: &str, todos: &[Todo]) -> (r: Option<usize>)
    ensures
        r matches Some(p) ==> address_of(word@, todo_views(todos@)) == Some(p as nat),
        r is None ==> address_of(word@, todo_views(todos@)) is None,
{
    match parse_number(word) {
        Some(n) => {
            if n > 0 {
                return Some(n);
            }
        },
        None => {},
    }
    let id = upper_chars(word);
    find_identifier(todos, &id)
}

/// The list to fetch before an item is addressed: the one the first of two
/// or more arguments names, today's list otherwise.
pub open spec fn lookup_list(args: Seq<Seq<char>>) -> ListName {
    if args.len() >= 2 {
        match list_keyword(args[0]) {
            Some(l) => l,
            None => ListName::Today,
        }
    } else {
        ListName::Today
    }
}

/// The list to fetch before an item is addressed.
pub fn target_list(args: &[String]) -> (r: ListName)
    ensures
        r == lookup_list(string_views(args@)),
{
    if args.len() >= 2 {
        match keyword_list(args[0].as_str()) {
            Some(l) => l,
            None => ListName::Today,
        }
    } else {
        ListName::Today
    }
}

/// Resolves `[list] <id>`: one argument addresses today's list; with two or
/// more the first must name a list. The identifier or number must point at
/// an item of `todos`, read from that list.
pub fn parse_list_and_identifier(args: &[String], todos: &[Todo]) -> (r: Result<(ListName, usize), CommandError>)
    ensures
        ({
            let a = string_views(args@);
            let ts = todo_views(todos@);
            &&& a.len() == 0 ==> (r matches Err(CommandError::MissingIdentifier))
            &&& a.len() >= 2 && list_keyword(a[0]) is None ==> unknown_list(r, a[0])
            &&& a.len() >= 1 && !(a.len() >= 2 && list_keyword(a[0]) is None) ==> {
                let (l, word) = if a.len() == 1 {
                    (ListName::Today, a[0])
                } else {
                    (list_keyword(a[0])->0, a[1])
                };
                match address_of(word, ts) {
                    Some(p) => r == Ok::<(ListName, usize), CommandError>((l, p as usize)),
                    None => not_found(r, word),
                }
            }
        }),
{
    if args.len() == 0 {
        return Err(CommandError::MissingIdentifier);
    }
    let (list, word) = if args.len() == 1 {
        (ListName::Today, &args[0])
    } else {
        match keyword_list(args[0].as_str()) {
            Some(l) => (l, &args[1]),
            None => {
                return Err(CommandError::UnknownList(args[0].clone()));
            },
        }
    };
    match resolve_address(word.as_str(), todos) {
        Some(p) => Ok((list, p)),
        None => Err(CommandError::NotFound(word.clone())),
    }
}

/// The words joined with single spaces.
pub open spec fn join_words(words: Seq<Seq<char>>) -> Seq<char> {
    join_with(words, seq![' '])
}

/// The text of the words `args[from..]`, joined with single spaces.
fn words_from(args: &[String], from: usize) -> (r: String)
    requires
        from <= args.len(),
    ensures
        r@ == join_words(string_views(args@).skip(from as int)),
{
    let mut parts: Vec<Vec<char>> = Vec::new();
    let mut k: usize = from;
    while k < args.len()
        invariant
            from <= k <= args.len(),
            views(parts@) == string_views(args@).subrange(from as int, k as int),
        decreases args.len() - k,
    {
        let ghost before = views(parts@);
        parts.push(chars_of(args[k].as_str()));
        assert(views(parts@) =~= before.push(args@[k as int]@));
        assert(string_views(args@).subrange(from as int, k + 1) =~= string_views(
            args@,
        ).subrange(from as int, k as int).push(args@[k as int]@));
        k += 1;
    }
    assert(string_views(args@).subrange(from as int, args.len() as int) =~= string_views(
        args@,
    ).skip(from as int));
    let sep = vec![' '];
    assert(sep@ =~= seq![' ']);
    let joined = join_chars(&parts, &sep);
    string_of(&joined)
}

/// Reads `add [list] <text...>`: a first word naming a list picks it and the
/// rest is the text; otherwise all words are the text, for `default_list`.
pub fn parse_add_args(args: &[String], default_list: ListName) -> (r: Result<(ListName, String), CommandError>)
    ensures
        ({
            let a = string_views(args@);
            &&& a.len() == 0 ==> (r matches Err(CommandError::MissingText))
            &&& a.len() >= 1 ==> match list_keyword(a[0]) {
                Some(l) => if a.len() < 2 {
                    (r matches Err(CommandError::MissingText))
                } else {
                    r is Ok && r->Ok_0.0 == l && r->Ok_0.1@ == join_words(a.skip(1))
                },
                None => r is Ok && r->Ok_0.0 == default_list && r->Ok_0.1@ == join_words(a),
            }
        }),
{
    if args.len() == 0 {
        return Err(CommandError::MissingText);
    }
    match keyword_list(args[0].as_str()) {
        Some(l) => {
            if args.len() < 2 {
                Err(CommandError::MissingText)
            } else {
                Ok((l, words_from(args, 1)))
            }
        },
        None => {
            let t = words_from(args, 0);
            assert(string_views(args@).skip(0) =~= string_views(args@));
            Ok((default_list, t))
        },
    }
}

/// Reads `complete [list] <id...>`: the list, and the words that address
/// items in it.
pub fn parse_complete_args(args: &[String]) -> (r: Result<(ListName, Vec<String>), CommandError>)
    ensures
        ({
            let a = string_views(args@);
            &&& a.len() == 0 ==> (r matches Err(CommandError::MissingIdentifier))
            &&& a.len() >= 1 ==> match list_keyword(a[0]) {
                Some(l) => if a.len() < 2 {
                    (r matches Err(CommandError::MissingIdentifier))
                } else {
                    r is Ok && r->Ok_0.0 == l && string_views(r->Ok_0.1@) == a.skip(1)
                },
                None => r is Ok && r->Ok_0.0 == ListName::Today && string_views(r->Ok_0.1@)
                    == a,
            }
        }),
{
    if args.len() == 0 {
        return Err(CommandError::MissingIdentifier);
    }
    let (list, from): (ListName, usize) = match keyword_list(args[0].as_str()) {
        Some(l) => {
            if args.len() < 2 {
                return Err(CommandError::MissingIdentifier);
            }
            (l, 1)
        },
        None => (ListName::Today, 0),
    };
    let mut ids: Vec<String> = Vec::new();
    let mut k: usize = from;
    while k < args.len()
        invariant
            from <= k <= args.len(),
            string_views(ids@) == string_views(args@).subrange(from as int, k as int),
        decreases args.len() - k,
    {
        let ghost before = string_views(ids@);
        ids.push(args[k].clone());
        assert(string_views(ids@) =~= before.push(args@[k as int]@));
        assert(string_views(args@).subrange(from as int, k + 1) =~= string_views(
            args@,
        ).subrange(from as int, k as int).push(args@[k as int]@));
        k += 1;
    }
    assert(string_views(args@).subrange(from as int, args.len() as int) =~= string_views(
        args@,
    ).skip(from as int));
    assert(string_views(args@).skip(0) =~= string_views(args@));
    Ok((list, ids))
}

/// Whether `s` is in non-increasing order.
pub open spec fn descending(s: Seq<usize>) -> bool {
    forall|i: int, j: int| 0 <= i < j < s.len() ==> s[i] >= s[j]
}

/// `s` and `x` in one non-increasing sequence.
fn insert_descending(s: &mut Vec<usize>, x: usize)
    requires
        descending(old(s)@),
    ensures
        descending(final(s)@),
        final(s)@.len() == old(s)@.len() + 1,
        final(s)@.to_multiset() == old(s)@.to_multiset().insert(x),
{
    let mut p: usize = 0;
    while p < s.len() && s[p] >= x
        invariant
            p <= s.len(),
            forall|i: int| 0 <= i < p ==> s@[i] >= x,
        decreases s.len() - p,
    {
        p += 1;
    }
    let ghost before = s@;
    s.insert(p, x);
    assert(s@ == before.insert(p as int, x));
    assert forall|i: int, j: int| 0 <= i < j < s@.len() implies s@[i] >= s@[j] by {
        if j < p {
        } else if j == p {
        } else if i < p {
            assert(s@[j] == before[j - 1]);
            if p < before.len() {
                assert(before[p as int] < x);
                assert(before[p as int] >= before[j - 1] || p == j - 1);
            }
        } else if i == p {
            assert(s@[j] == before[j - 1]);
            assert(before[p as int] < x);
        } else {
            assert(s@[i] == before[i - 1]);
            assert(s@[j] == before[j - 1]);
        }
    }
}

/// The position each word addresses, for words that all address one.
pub open spec fn addresses(words: Seq<Seq<char>>, todos: Seq<TodoView>) -> Seq<usize> {
    Seq::new(words.len(), |i: int| address_of(words[i], todos)->0 as usize)
}

/// The positions that `ids` address among `todos`, highest first, so that
/// completing one does not move the others. Fails on the first word that
/// addresses nothing, or when there is no word.
pub fn resolve_targets(ids: &[String], todos: &[Todo]) -> (r: Result<Vec<usize>, CommandError>)
    ensures
        ({
            let ws = string_views(ids@);
            let ts = todo_views(todos@);
            &&& (forall|i: int| 0 <= i < ws.len() ==> address_of(#[trigger] ws[i], ts) is Some)
                && ws.len() == 0 ==> (r matches Err(CommandError::MissingIdentifier))
            &&& (forall|i: int| 0 <= i < ws.len() ==> address_of(#[trigger] ws[i], ts) is Some)
                && ws.len() > 0 ==> r is Ok && descending(r->Ok_0@) && r->Ok_0@.to_multiset()
                == addresses(ws, ts).to_multiset()
            &&& forall|i: int|
                0 <= i < ws.len() && address_of(#[trigger] ws[i], ts) is None && (forall|j: int|
                    0 <= j < i ==> address_of(#[trigger] ws[j], ts) is Some) ==> not_found(r, ws[i])
        }),
{
    let ghost ws = string_views(ids@);
    let ghost ts = todo_views(todos@);
    let ghost wanted = addresses(ws, ts);
    let mut out: Vec<usize> = Vec::new();
    let mut k: usize = 0;
    assert(out@ =~= wanted.take(0));
    while k < ids.len()
        invariant
            k <= ids.len(),
            ws == string_views(ids@),
            ts == todo_views(todos@),
            wanted == addresses(ws, ts),
            forall|j: int| 0 <= j < k ==> address_of(#[trigger] ws[j], ts) is Some,
            descending(out@),
            out.len() == k,
            out@.to_multiset() == wanted.take(k as int).to_multiset(),
        decreases ids.len() - k,
    {
        match resolve_address(ids[k].as_str(), todos) {
            Some(p) => {
                insert_descending(&mut out, p);
                assert(wanted.take(k + 1) =~= wanted.take(k as int).push(wanted[k as int]));
                proof {
                    vstd::seq_lib::to_multiset_build(wanted.take(k as int), wanted[k as int]);
                }
            },
            None => {
                return Err(CommandError::NotFound(ids[k].clone()));
            },
        }
        k += 1;
    }
    if out.len() == 0 {
        return Err(CommandError::MissingIdentifier);
    }
    assert(wanted.take(k as int) =~= wanted);
    assert(forall|i: int| 0 <= i < ws.len() ==> address_of(#[trigger] ws[i], ts) is Some);
    assert(out@.to_multiset() == wanted.to_multiset());
    Ok(out)
}

/// Reads `mv <id>` (inbox to today), `mv <from> <id>` (to today) and
/// `mv <from> <id> <to>`: the source list, the addressing word and the
/// destination list.
pub fn parse_move_args(args: &[String]) -> (r: Result<(ListName, String, ListName), CommandError>)
    ensures
        ({
            let a = string_views(args@);
            &&& a.len() == 0 ==> (r matches Err(CommandError::MissingIdentifier))
            &&& a.len() == 1 ==> moves(r, ListName::Inbox, a[0], ListName::Today)
            &&& a.len() >= 2 && list_keyword(a[0]) is None ==> unknown_list(r, a[0])
            &&& a.len() == 2 && list_keyword(a[0]) is Some ==> moves(
                r,
                list_keyword(a[0])->0,
                a[1],
                ListName::Today,
            )
            &&& a.len() >= 3 && list_keyword(a[0]) is Some ==> match list_keyword(a[2]) {
                Some(to) => moves(r, list_keyword(a[0])->0, a[1], to),
                None => unknown_list(r, a[2]),
            }
        }),
{
    if args.len() == 0 {
        return Err(CommandError::MissingIdentifier);
    }
    if args.len() == 1 {
        return Ok((ListName::Inbox, args[0].clone(), ListName::Today));
    }
    let from = match keyword_list(args[0].as_str()) {
        Some(l) => l,
        None => {
            return Err(CommandError::UnknownList(args[0].clone()));
        },
    };
    if args.len() == 2 {
        return Ok((from, args[1].clone(), ListName::Today));
    }
    match keyword_list(args[2].as_str()) {
        Some(to) => Ok((from, args[1].clone(), to)),
        None => Err(CommandError::UnknownList(args[2].clone())),
    }
}

/// The position a move addresses: a number must be positive; any other
/// word is an identifier of `todos`.
pub fn resolve_move_target(word: &str, todos: &[Todo]) -> (r: Result<usize, CommandError>)
    ensures
        ({
            let ts = todo_views(todos@);
            match parsed_number(word@) {
                Some(n) => if n > 0 {
                    r == Ok::<usize, CommandError>(n as usize)
                } else {
                    invalid_number(r, word@)
                },
                None => match position_of(ts, uppercase_of(word@)) {
                    Some(p) => r == Ok::<usize, CommandError>(p as usize),
                    None => not_found(r, word@),
                },
            }
        }),
{
    match parse_number(word) {
        Some(n) => {
            if n > 0 {
                Ok(n)
            } else {
                Err(CommandError::InvalidNumber(String::from_str(word)))
            }
        },
        None => {
            let id = upper_chars(word);
            match find_identifier(todos, &id) {
                Some(p) => Ok(p),
                None => Err(CommandError::NotFound(String::from_str(word))),
            }
        },
    }
}

} // verus!
