//! The to-do item and the derivation of its base identifier.

use vstd::prelude::*;
use crate::text::{char_is_whitespace, chars_of, is_white_space, string_of};

verus! {

/// One entry of a fetched list.
#[derive(Debug, Clone)]
pub struct Todo {
    /// Display text.
    pub name: String,
    /// Tags, joined with `", "`; empty when there are none.
    pub tags: String,
    pub is_completed: bool,
    /// 1-based position in the list at fetch time, used to address the
    /// item; should the list change before a request, it addresses another.
    pub index: usize,
    /// Short code assigned per snapshot.
    pub identifier: String,
}

/// What an item holds, as mathematical values.
pub struct TodoView {
    pub name: Seq<char>,
    pub tags: Seq<char>,
    pub is_completed: bool,
    pub index: nat,
    pub identifier: Seq<char>,
}

impl View for Todo {
    type V = TodoView;

    open spec fn view(&self) -> TodoView {
        TodoView {
            name: self.name@,
            tags: self.tags@,
            is_completed: self.is_completed,
            index: self.index as nat,
            identifier: self.identifier@,
        }
    }
}

/// The views of a batch of items.
pub open spec fn todo_views(s: Seq<Todo>) -> Seq<TodoView> {
    s.map_values(|t: Todo| t@)
}

/// The first character of the upper-case mapping of `c`.
pub uninterp spec fn upper_initial(c: char) -> char;

/// Relies on `char::to_uppercase`, which yields one or more characters and
/// depends on the character alone: its first character is kept.
#[verifier::external_body]
fn first_upper(c: char) -> (r: char)
    ensures
        r == upper_initial(c),
{
    c.to_uppercase().next().unwrap_or(c)
}

/// The characters of `s` that are not whitespace, in order.
pub open spec fn visible_chars(s: Seq<char>) -> Seq<char>
    decreases s.len(),
{
    if s.len() == 0 {
        s
    } else if is_white_space(s.last()) {
        visible_chars(s.drop_last())
    } else {
        visible_chars(s.drop_last()).push(s.last())
    }
}

/// At most the first three characters of `s`.
pub open spec fn first_three(s: Seq<char>) -> Seq<char> {
    if s.len() <= 3 {
        s
    } else {
        s.take(3)
    }
}

/// The identifier used when a name has no visible character.
pub open spec fn placeholder_identifier() -> Seq<char> {
    seq!['_', '_', '_']
}

/// The base identifier of a name: its first three non-whitespace characters,
/// each upper-cased, or three underscores when there are none.
pub open spec fn base_identifier(name: Seq<char>) -> Seq<char> {
    let kept = first_three(visible_chars(name));
    if kept.len() == 0 {
        placeholder_identifier()
    } else {
        kept.map_values(|c: char| upper_initial(c))
    }
}

impl Todo {
    /// A field-by-field copy.
    pub fn duplicate(&self) -> (r: Todo)
        ensures
            r == *self,
    {
        Todo {
            name: self.name.clone(),
            tags: self.tags.clone(),
            is_completed: self.is_completed,
            index: self.index,
            identifier: self.identifier.clone(),
        }
    }

    /// The base identifier of `name`.
    pub fn generate_base_identifier(name: &str) -> (r: String)
        ensures
            r@ == base_identifier(name@),
            1 <= r@.len() <= 3,
    {
        let cs = chars_of(name);
        let mut kept: Vec<char> = Vec::new();
        let mut i: usize = 0;
        assert(cs@.take(0) =~= Seq::<char>::empty());
        while i < cs.len()
            invariant
                i <= cs.len(),
                kept@ == first_three(visible_chars(cs@.take(i as int))).map_values(
                    |c: char| upper_initial(c),
                ),
            decreases cs.len() - i,
        {
            let c = cs[i];
            let ghost v = visible_chars(cs@.take(i as int));
            assert(cs@.take(i + 1).drop_last() =~= cs@.take(i as int));
            if !char_is_whitespace(c) {
                if kept.len() < 3 {
                    let u = first_upper(c);
                    kept.push(u);
                    assert(first_three(v.push(c)) =~= first_three(v).push(c));
                    assert(kept@ =~= first_three(v.push(c)).map_values(|c: char| upper_initial(c)));
                } else {
                    assert(first_three(v.push(c)) =~= first_three(v));
                }
            }
            i += 1;
        }
        assert(cs@.take(cs.len() as int) =~= cs@);
        if kept.len() == 0 {
            let r = string_of(&vec!['_', '_', '_']);
            assert(r@ =~= placeholder_identifier());
            r
        } else {
            string_of(&kept)
        }
    }
}

} // verus!
