//! Reading a fetched list: one item per line, fields separated by `|`.

use vstd::prelude::*;
use crate::identifiers::{assign_identifiers, assigned, bases_of, overflows, CollisionOverflow};
use crate::text::{chars_of, slice_chars, split_chars, split_on, string_of, trim, trim_chars, views};
use crate::todo::{Todo, TodoView, todo_views};

verus! {

/// A line without its final carriage return, if it has one.
pub open spec fn strip_cr(l: Seq<char>) -> Seq<char> {
    if l.len() > 0 && l.last() == '\r' {
        l.drop_last()
    } else {
        l
    }
}

/// The lines of `s`: cut at each `'\n'`, a `'\r'` before a `'\n'` dropped,
/// with no empty line after a final `'\n'` and none at all for an empty `s`.
pub open spec fn lines_of(s: Seq<char>) -> Seq<Seq<char>> {
    let parts = split_on(s, '\n');
    let ended = parts.take(parts.len() - 1).map_values(|l: Seq<char>| strip_cr(l));
    if s.len() == 0 {
        Seq::empty()
    } else if s.last() == '\n' {
        ended
    } else {
        ended.push(parts.last())
    }
}

/// The status field of a completed item.
pub open spec fn completed_flag() -> Seq<char> {
    seq!['C', 'O', 'M', 'P', 'L', 'E', 'T', 'E', 'D']
}

/// The item read from `status|name|tags` on line `pos` (1-based), if the
/// line has at least two fields; its identifier is still empty.
pub open spec fn status_entry(line: Seq<char>, pos: nat) -> Option<TodoView> {
    let f = split_on(line, '|');
    if f.len() >= 2 {
        Some(
            TodoView {
                name: f[1],
                tags: if f.len() >= 3 {
                    f[2]
                } else {
                    Seq::empty()
                },
                is_completed: f[0] == completed_flag(),
                index: pos,
                identifier: Seq::empty(),
            },
        )
    } else {
        None
    }
}

/// The item read from `name|tags` on line `pos` (1-based); its identifier is
/// still empty.
pub open spec fn plain_entry(line: Seq<char>, pos: nat, completed: bool) -> TodoView {
    let f = split_on(line, '|');
    TodoView {
        name: f[0],
        tags: if f.len() >= 2 {
            f[1]
        } else {
            Seq::empty()
        },
        is_completed: completed,
        index: pos,
        identifier: Seq::empty(),
    }
}

/// The items read from `status|name|tags` lines, in order.
pub open spec fn status_entries(lines: Seq<Seq<char>>) -> Seq<TodoView>
    decreases lines.len(),
{
    if lines.len() == 0 {
        Seq::empty()
    } else {
        let before = status_entries(lines.drop_last());
        match status_entry(lines.last(), lines.len()) {
            Some(e) => before.push(e),
            None => before,
        }
    }
}

/// The items read from `name|tags` lines, in order.
pub open spec fn plain_entries(lines: Seq<Seq<char>>, completed: bool) -> Seq<TodoView> {
    Seq::new(lines.len(), |i: int| plain_entry(lines[i], (i + 1) as nat, completed))
}

/// The names of a batch.
pub open spec fn entry_names(es: Seq<TodoView>) -> Seq<Seq<char>> {
    es.map_values(|e: TodoView| e.name)
}

/// The batch with each identifier assigned.
pub open spec fn with_identifiers(es: Seq<TodoView>) -> Seq<TodoView> {
    Seq::new(
        es.len(),
        |i: int| TodoView { identifier: assigned(bases_of(entry_names(es)))[i], ..es[i] },
    )
}

/// The lines of `cs`.
pub fn lines_chars(cs: &Vec<char>) -> (r: Vec<Vec<char>>)
    ensures
        views(r@) == lines_of(cs@),
{
    if cs.len() == 0 {
        let r: Vec<Vec<char>> = Vec::new();
        assert(views(r@) =~= lines_of(cs@));
        return r;
    }
    let parts = split_chars(cs, '\n');
    proof {
        crate::text::lemma_split_on_nonempty(cs@, '\n');
    }
    let last = parts.len() - 1;
    let ghost ps = views(parts@);
    let mut out: Vec<Vec<char>> = Vec::new();
    let mut k: usize = 0;
    while k < last
        invariant
            k <= last < parts.len(),
            ps == views(parts@),
            views(out@) == ps.take(k as int).map_values(|l: Seq<char>| strip_cr(l)),
        decreases last - k,
    {
        let p = &parts[k];
        let line = if p.len() > 0 && p[p.len() - 1] == '\r' {
            slice_chars(p, 0, p.len() - 1)
        } else {
            slice_chars(p, 0, p.len())
        };
        assert(p@.subrange(0, p@.len() as int) =~= p@);
        assert(p@.subrange(0, p@.len() - 1) =~= p@.drop_last());
        let ghost before = views(out@);
        out.push(line);
        assert(views(out@) =~= before.push(strip_cr(ps[k as int])));
        assert(ps.take(k + 1).map_values(|l: Seq<char>| strip_cr(l)) =~= ps.take(
            k as int,
        ).map_values(|l: Seq<char>| strip_cr(l)).push(strip_cr(ps[k as int])));
        k += 1;
    }
    if cs[cs.len() - 1] != '\n' {
        let ghost before = views(out@);
        let tail = slice_chars(&parts[last], 0, parts[last].len());
        assert(tail@ =~= ps.last());
        out.push(tail);
        assert(views(out@) =~= before.push(ps.last()));
    }
    out
}

/// The fields of one line.
fn fields_of(line: &Vec<char>) -> (r: Vec<Vec<char>>)
    ensures
        views(r@) == split_on(line@, '|'),
        r.len() >= 1,
{
    proof {
        crate::text::lemma_split_on_nonempty(line@, '|');
    }
    split_chars(line, '|')
}

/// The characters of the completed status flag.
fn completed_flag_chars() -> (r: Vec<char>)
    ensures
        r@ == completed_flag(),
{
    let r = vec!['C', 'O', 'M', 'P', 'L', 'E', 'T', 'E', 'D'];
    assert(r@ =~= completed_flag());
    r
}

/// Items read from a status listing (`status|name|tags` per line, after
/// trimming the whole text), each at its line's position, with identifiers
/// assigned. Fails when identifiers run out.
pub fn parse_status_listing(output: &str) -> (r: Result<Vec<Todo>, CollisionOverflow>)
    ensures
        ({
            let es = status_entries(lines_of(trim(output@)));
            &&& r is Err <==> overflows(bases_of(entry_names(es)))
            &&& r matches Ok(v) ==> todo_views(v@) == with_identifiers(es)
        }),
{
    let trimmed = string_of(&trim_chars(&chars_of(output)));
    read_status_lines(trimmed.as_str())
}

/// Items read from the `status|name|tags` lines of `text`, each at its
/// line's position, with identifiers assigned. Fails when identifiers run
/// out.
pub fn read_status_lines(text: &str) -> (r: Result<Vec<Todo>, CollisionOverflow>)
    ensures
        ({
            let es = status_entries(lines_of(text@));
            &&& r is Err <==> overflows(bases_of(entry_names(es)))
            &&& r matches Ok(v) ==> todo_views(v@) == with_identifiers(es)
        }),
{
    let lines = lines_chars(&chars_of(text));
    let ghost ls = views(lines@);
    let flag = completed_flag_chars();
    let mut todos: Vec<Todo> = Vec::new();
    let mut k: usize = 0;
    while k < lines.len()
        invariant
            k <= lines.len(),
            ls == views(lines@),
            flag@ == completed_flag(),
            todo_views(todos@) == status_entries(ls.take(k as int)),
            forall|j: int| 0 <= j < todos.len() ==> (#[trigger] todos@[j]).identifier@ == Seq::<
                char,
            >::empty(),
        decreases lines.len() - k,
    {
        assert(ls.take(k + 1).drop_last() =~= ls.take(k as int));
        let f = fields_of(&lines[k]);
        let ghost before = todo_views(todos@);
        if f.len() >= 2 {
            let tags = if f.len() >= 3 {
                string_of(&f[2])
            } else {
                String::new()
            };
            let t = Todo {
                name: string_of(&f[1]),
                tags,
                is_completed: crate::text::same_chars(&f[0], &flag),
                index: k + 1,
                identifier: String::new(),
            };
            todos.push(t);
            assert(todo_views(todos@) =~= before.push(t@));
        } else {
            assert(todo_views(todos@) =~= before);
        }
        k += 1;
    }
    assert(ls.take(lines.len() as int) =~= ls);
    finish_batch(todos)
}

/// Items read from a plain listing (`name|tags` per line, after trimming the
/// whole text), each at its line's position and with the given status, with
/// identifiers assigned. Fails when identifiers run out.
pub fn parse_plain_listing(output: &str, completed: bool) -> (r: Result<Vec<Todo>, CollisionOverflow>)
    ensures
        ({
            let es = plain_entries(lines_of(trim(output@)), completed);
            &&& r is Err <==> overflows(bases_of(entry_names(es)))
            &&& r matches Ok(v) ==> todo_views(v@) == with_identifiers(es)
        }),
{
    let trimmed = string_of(&trim_chars(&chars_of(output)));
    read_plain_lines(trimmed.as_str(), completed)
}

/// Items read from the `name|tags` lines of `text`, each at its line's
/// position and with the given status, with identifiers assigned. Fails
/// when identifiers run out.
pub fn read_plain_lines(text: &str, completed: bool) -> (r: Result<Vec<Todo>, CollisionOverflow>)
    ensures
        ({
            let es = plain_entries(lines_of(text@), completed);
            &&& r is Err <==> overflows(bases_of(entry_names(es)))
            &&& r matches Ok(v) ==> todo_views(v@) == with_identifiers(es)
        }),
{
    let lines = lines_chars(&chars_of(text));
    let ghost ls = views(lines@);
    let mut todos: Vec<Todo> = Vec::new();
    let mut k: usize = 0;
    while k < lines.len()
        invariant
            k <= lines.len(),
            ls == views(lines@),
            todo_views(todos@) == plain_entries(ls.take(k as int), completed),
            forall|j: int| 0 <= j < todos.len() ==> (#[trigger] todos@[j]).identifier@ == Seq::<
                char,
            >::empty(),
        decreases lines.len() - k,
    {
        let f = fields_of(&lines[k]);
        let ghost before = todo_views(todos@);
        let tags = if f.len() >= 2 {
            string_of(&f[1])
        } else {
            String::new()
        };
        let t = Todo {
            name: string_of(&f[0]),
            tags,
            is_completed: completed,
            index: k + 1,
            identifier: String::new(),
        };
        todos.push(t);
        assert(todo_views(todos@) =~= before.push(t@));
        assert(plain_entries(ls.take(k + 1), completed) =~= plain_entries(
            ls.take(k as int),
            completed,
        ).push(plain_entry(ls[k as int], (k + 1) as nat, completed)));
        k += 1;
    }
    assert(ls.take(lines.len() as int) =~= ls);
    finish_batch(todos)
}

/// Assigns identifiers to freshly read items.
fn finish_batch(todos: Vec<Todo>) -> (r: Result<Vec<Todo>, CollisionOverflow>)
    requires
        forall|j: int| 0 <= j < todos.len() ==> (#[trigger] todos@[j]).identifier@ == Seq::<
            char,
        >::empty(),
    ensures
        ({
            let es = todo_views(todos@);
            &&& r is Err <==> overflows(bases_of(entry_names(es)))
            &&& r matches Ok(v) ==> todo_views(v@) == with_identifiers(es)
        }),
{
    let mut todos = todos;
    let ghost es = todo_views(todos@);
    assert(entry_names(es) =~= crate::identifiers::names_of(todos@));
    match assign_identifiers(&mut todos) {
        Ok(()) => {
            assert(todo_views(todos@) =~= with_identifiers(es));
            Ok(todos)
        },
        Err(e) => Err(e),
    }
}

/// The status field of an item that is not completed.
pub open spec fn open_flag() -> Seq<char> {
    seq!['N', 'O', 'T', 'C', 'O', 'M', 'P', 'L', 'E', 'T', 'E', 'D']
}

/// The `status|name|tags` line of an item.
pub open spec fn status_fields(name: Seq<char>, tags: Seq<char>, completed: bool) -> Seq<char> {
    (if completed {
        completed_flag()
    } else {
        open_flag()
    }) + seq!['|'] + name + seq!['|'] + tags
}

/// The `status|name|tags` line of an item.
pub fn status_line(todo: &Todo) -> (r: String)
    ensures
        r@ == status_fields(todo.name@, todo.tags@, todo.is_completed),
{
    let mut out: Vec<char> = if todo.is_completed {
        completed_flag_chars()
    } else {
        let f = vec!['N', 'O', 'T', 'C', 'O', 'M', 'P', 'L', 'E', 'T', 'E', 'D'];
        assert(f@ =~= open_flag());
        f
    };
    crate::text::append_chars(&mut out, &vec!['|']);
    crate::text::append_chars(&mut out, &chars_of(todo.name.as_str()));
    crate::text::append_chars(&mut out, &vec!['|']);
    crate::text::append_chars(&mut out, &chars_of(todo.tags.as_str()));
    assert(out@ =~= status_fields(todo.name@, todo.tags@, todo.is_completed));
    string_of(&out)
}

proof fn lemma_split_without_sep(a: Seq<char>, sep: char)
    requires
        !a.contains(sep),
    ensures
        split_on(a, sep) == seq![a],
    decreases a.len(),
{
    if a.len() > 0 {
        assert(!a.drop_last().contains(sep)) by {
            if a.drop_last().contains(sep) {
                let k = choose|k: int| 0 <= k < a.len() - 1 && a.drop_last()[k] == sep;
                assert(a[k] == sep);
            }
        }
        lemma_split_without_sep(a.drop_last(), sep);
        assert(a.last() != sep) by {
            assert(a[a.len() - 1] == a.last());
        }
        assert(a.drop_last().push(a.last()) =~= a);
        assert(seq![a.drop_last()].update(0, a.drop_last().push(a.last())) =~= seq![a]);
    } else {
        assert(a =~= Seq::<char>::empty());
    }
}

proof fn lemma_split_at_sep(a: Seq<char>, b: Seq<char>, sep: char)
    ensures
        split_on(a + seq![sep] + b, sep) == split_on(a, sep) + split_on(b, sep),
    decreases b.len(),
{
    let s = a + seq![sep] + b;
    if b.len() == 0 {
        assert(s.drop_last() =~= a);
        assert(split_on(a, sep).push(Seq::empty()) =~= split_on(a, sep) + split_on(b, sep));
    } else {
        let b0 = b.drop_last();
        assert(s.drop_last() =~= a + seq![sep] + b0);
        lemma_split_at_sep(a, b0, sep);
        crate::text::lemma_split_on_nonempty(b0, sep);
        crate::text::lemma_split_on_nonempty(a, sep);
        let x = split_on(a, sep);
        let y = split_on(b0, sep);
        if b.last() == sep {
            assert((x + y).push(Seq::empty()) =~= x + y.push(Seq::empty()));
        } else {
            assert((x + y).update((x + y).len() - 1, (x + y).last().push(b.last())) =~= x
                + y.update(y.len() - 1, y.last().push(b.last())));
        }
    }
}

/// Writing an item's status, name and tags as a status line and reading the
/// line back gives the same name, tags and status, as long as neither the
/// name nor the tags hold a `'|'`.
pub proof fn lemma_status_line_round_trip(name: Seq<char>, tags: Seq<char>, completed: bool, pos: nat)
    requires
        !name.contains('|'),
        !tags.contains('|'),
    ensures
        status_entry(status_fields(name, tags, completed), pos) == Some(
            TodoView { name, tags, is_completed: completed, index: pos, identifier: Seq::empty() },
        ),
{
    let flag = if completed {
        completed_flag()
    } else {
        open_flag()
    };
    assert(!flag.contains('|')) by {
        if flag.contains('|') {
            let k = choose|k: int| 0 <= k < flag.len() && flag[k] == '|';
        }
    }
    lemma_split_at_sep(flag, name, '|');
    lemma_split_at_sep(flag + seq!['|'] + name, tags, '|');
    lemma_split_without_sep(flag, '|');
    lemma_split_without_sep(name, '|');
    lemma_split_without_sep(tags, '|');
    let f = split_on(status_fields(name, tags, completed), '|');
    assert(f =~= seq![flag, name, tags]);
    if !completed {
        assert(flag.len() != completed_flag().len());
    }
}

} // verus!
