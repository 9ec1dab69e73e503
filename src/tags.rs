//! Tag lists: a comma-space-joined string, read as a sequence of tokens.

use vstd::prelude::*;
use crate::text::{chars_of, join_chars, join_with, same_chars, string_of, views};

verus! {

/// The separator between two tags.
pub open spec fn tag_separator() -> Seq<char> {
    seq![',', ' ']
}

/// The tag that marks an item as being worked on.
pub open spec fn in_progress() -> Seq<char> {
    seq!['i', 'n', '-', 'p', 'r', 'o', 'g', 'r', 'e', 's', 's']
}

/// The tokens of a tag string, cut at each `", "`; at least one token.
pub open spec fn split_tags(s: Seq<char>) -> Seq<Seq<char>>
    decreases s.len(),
{
    if s.len() == 0 {
        seq![Seq::empty()]
    } else if s.len() >= 2 && s[s.len() - 2] == ',' && s.last() == ' ' {
        split_tags(s.take(s.len() - 2)).push(Seq::empty())
    } else {
        let parts = split_tags(s.drop_last());
        parts.update(parts.len() - 1, parts.last().push(s.last()))
    }
}

/// The tokens joined with `", "` between each two.
pub open spec fn join_tags(parts: Seq<Seq<char>>) -> Seq<char> {
    join_with(parts, tag_separator())
}

/// The tokens other than `tok`, in order.
pub open spec fn without_token(parts: Seq<Seq<char>>, tok: Seq<char>) -> Seq<Seq<char>>
    decreases parts.len(),
{
    if parts.len() == 0 {
        parts
    } else if parts.last() == tok {
        without_token(parts.drop_last(), tok)
    } else {
        without_token(parts.drop_last(), tok).push(parts.last())
    }
}

/// Whether the tag string holds `tok` as a whole token.
pub open spec fn has_tag(tags: Seq<char>, tok: Seq<char>) -> bool {
    split_tags(tags).contains(tok)
}

/// The tag string with every token equal to `tok` taken out.
pub open spec fn strip_tag(tags: Seq<char>, tok: Seq<char>) -> Seq<char> {
    join_tags(without_token(split_tags(tags), tok))
}

pub proof fn lemma_split_tags_nonempty(s: Seq<char>)
    ensures
        split_tags(s).len() >= 1,
    decreases s.len(),
{
    if s.len() >= 2 && s[s.len() - 2] == ',' && s.last() == ' ' {
        lemma_split_tags_nonempty(s.take(s.len() - 2));
    } else if s.len() > 0 {
        lemma_split_tags_nonempty(s.drop_last());
    }
}

/// The characters of the in-progress tag.
pub fn in_progress_chars() -> (r: Vec<char>)
    ensures
        r@ == in_progress(),
{
    let r = vec!['i', 'n', '-', 'p', 'r', 'o', 'g', 'r', 'e', 's', 's'];
    assert(r@ =~= in_progress());
    r
}

/// The tokens of a tag string.
pub fn split_tag_chars(cs: &Vec<char>) -> (r: Vec<Vec<char>>)
    ensures
        views(r@) == split_tags(cs@),
{
    let mut parts: Vec<Vec<char>> = Vec::new();
    let mut cur: Vec<char> = Vec::new();
    let mut i: usize = 0;
    assert(cs@.take(0) =~= Seq::<char>::empty());
    assert(views(parts@).push(cur@) =~= seq![Seq::<char>::empty()]);
    while i < cs.len()
        invariant
            i <= cs.len(),
            split_tags(cs@.take(i as int)) == views(parts@).push(cur@),
            cur.len() > 0 ==> i > 0 && cur@.last() == cs@[i - 1],
            cur.len() == 0 && i > 0 ==> cs@[i - 1] == ' ',
        decreases cs.len() - i,
    {
        let c = cs[i];
        let ghost prev = views(parts@);
        let ghost prev_cur = cur@;
        let ghost t = cs@.take(i + 1);
        assert(t.drop_last() =~= cs@.take(i as int));
        if c == ' ' && cur.len() > 0 && cur[cur.len() - 1] == ',' {
            assert(t.take(t.len() - 2) =~= cs@.take(i - 1));
            assert(cs@.take(i as int).drop_last() =~= cs@.take(i - 1));
            let ghost p = split_tags(cs@.take(i - 1));
            proof {
                lemma_split_tags_nonempty(cs@.take(i - 1));
                let q = p.update(p.len() - 1, p.last().push(','));
                assert(q == prev.push(prev_cur));
                assert(q.len() == p.len());
                assert(p.len() == prev.len() + 1);
                assert(q[prev.len() as int] == prev_cur);
                assert(p.last().push(',') == prev_cur);
                assert(p.last() =~= prev_cur.drop_last());
                assert forall|k: int| 0 <= k < prev.len() implies p[k] == prev[k] by {
                    assert(q[k] == p[k]);
                    assert(prev.push(prev_cur)[k] == prev[k]);
                }
                assert(p =~= prev.push(prev_cur.drop_last()));
            }
            cur.pop();
            let done = cur;
            parts.push(done);
            cur = Vec::new();
            assert(views(parts@) =~= prev.push(prev_cur.drop_last()));
        } else {
            cur.push(c);
            assert(views(parts@).push(cur@) =~= prev.push(prev_cur).update(
                prev.len() as int,
                prev_cur.push(c),
            ));
        }
        i += 1;
    }
    assert(cs@.take(cs.len() as int) =~= cs@);
    let ghost before = views(parts@);
    parts.push(cur);
    assert(views(parts@) =~= before.push(cur@));
    parts
}

/// The tokens joined with `", "`.
pub fn join_tag_chars(parts: &Vec<Vec<char>>) -> (r: Vec<char>)
    ensures
        r@ == join_tags(views(parts@)),
{
    let sep = vec![',', ' '];
    assert(sep@ =~= tag_separator());
    join_chars(parts, &sep)
}

/// The tokens other than `tok`.
pub fn without_token_chars(parts: &Vec<Vec<char>>, tok: &Vec<char>) -> (r: Vec<Vec<char>>)
    ensures
        views(r@) == without_token(views(parts@), tok@),
{
    let mut kept: Vec<Vec<char>> = Vec::new();
    let mut k: usize = 0;
    while k < parts.len()
        invariant
            k <= parts.len(),
            views(kept@) == without_token(views(parts@).take(k as int), tok@),
        decreases parts.len() - k,
    {
        let ghost before = views(kept@);
        assert(views(parts@).take(k + 1).drop_last() =~= views(parts@).take(k as int));
        if !same_chars(&parts[k], tok) {
            kept.push(parts[k].clone());
            assert(views(kept@) =~= before.push(parts@[k as int]@));
        }
        k += 1;
    }
    assert(views(parts@).take(parts.len() as int) =~= views(parts@));
    kept
}

/// Whether `tok` is one of the tokens.
pub fn contains_token(parts: &Vec<Vec<char>>, tok: &Vec<char>) -> (r: bool)
    ensures
        r == views(parts@).contains(tok@),
{
    let mut k: usize = 0;
    while k < parts.len()
        invariant
            k <= parts.len(),
            forall|j: int| 0 <= j < k ==> parts@[j]@ != tok@,
        decreases parts.len() - k,
    {
        if same_chars(&parts[k], tok) {
            assert(views(parts@)[k as int] == tok@);
            return true;
        }
        k += 1;
    }
    assert(!views(parts@).contains(tok@)) by {
        if views(parts@).contains(tok@) {
            let j = choose|j: int| 0 <= j < views(parts@).len() && views(parts@)[j] == tok@;
            assert(parts@[j]@ == tok@);
        }
    }
    false
}

/// Whether the tag string holds the in-progress tag as a token.
pub fn has_in_progress(tags: &str) -> (r: bool)
    ensures
        r == has_tag(tags@, in_progress()),
{
    let cs = chars_of(tags);
    let parts = split_tag_chars(&cs);
    let tok = in_progress_chars();
    contains_token(&parts, &tok)
}

/// The tag string without the in-progress tag.
pub fn strip_in_progress(tags: &str) -> (r: String)
    ensures
        r@ == strip_tag(tags@, in_progress()),
{
    let cs = chars_of(tags);
    let parts = split_tag_chars(&cs);
    let tok = in_progress_chars();
    let kept = without_token_chars(&parts, &tok);
    let joined = join_tag_chars(&kept);
    string_of(&joined)
}

} // verus!
