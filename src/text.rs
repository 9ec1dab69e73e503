//! Character-level helpers on strings, each with an exact contract over
//! `Seq<char>`.

use vstd::prelude::*;
use vstd::std_specs::iter::IteratorSpec;

verus! {

broadcast use vstd::string::group_string_axioms;

/// Whether a character carries Unicode's White_Space property.
pub uninterp spec fn is_white_space(c: char) -> bool;

/// Relies on `char::is_whitespace`: the answer depends on the character alone.
#[verifier::external_body]
pub(crate) fn char_is_whitespace(c: char) -> (r: bool)
    ensures
        r == is_white_space(c),
{
    c.is_whitespace()
}

/// Relies on `String::push`: appends one character at the end.
#[verifier::external_body]
pub(crate) fn push_char(s: &mut String, c: char)
    ensures
        final(s)@ == old(s)@.push(c),
{
    s.push(c)
}

/// The characters of `s`, in order.
pub fn chars_of(s: &str) -> (r: Vec<char>)
    ensures
        r@ == s@,
{
    let mut it = s.chars();
    let mut out: Vec<char> = Vec::new();
    loop
        invariant
            it.obeys_prophetic_iter_laws(),
            it.remaining() == s@.skip(out.len() as int),
            out@ == s@.take(out.len() as int),
            out.len() <= s@.len(),
            it.decrease() is Some,
        ensures
            out@ == s@,
        decreases it.decrease()->0,
    {
        match it.next() {
            Some(c) => {
                out.push(c);
            },
            None => {
                assert(out@ =~= s@);
                break;
            },
        }
    }
    out
}

/// The characters of `cs` as a `String`.
pub fn string_of(cs: &Vec<char>) -> (r: String)
    ensures
        r@ == cs@,
{
    let mut out = String::new();
    let mut i: usize = 0;
    while i < cs.len()
        invariant
            i <= cs.len(),
            out@ == cs@.take(i as int),
        decreases cs.len() - i,
    {
        push_char(&mut out, cs[i]);
        proof {
            assert(cs@.take(i + 1) =~= cs@.take(i as int).push(cs@[i as int]));
        }
        i += 1;
    }
    assert(cs@.take(cs.len() as int) =~= cs@);
    out
}

/// Whether two character vectors hold the same characters.
pub fn same_chars(a: &Vec<char>, b: &Vec<char>) -> (r: bool)
    ensures
        r == (a@ == b@),
{
    if a.len() != b.len() {
        return false;
    }
    let mut i: usize = 0;
    while i < a.len()
        invariant
            i <= a.len(),
            a.len() == b.len(),
            a@.take(i as int) == b@.take(i as int),
        decreases a.len() - i,
    {
        if a[i] != b[i] {
            return false;
        }
        assert(a@.take(i + 1) =~= a@.take(i as int).push(a@[i as int]));
        assert(b@.take(i + 1) =~= b@.take(i as int).push(b@[i as int]));
        i += 1;
    }
    assert(a@ =~= a@.take(i as int));
    assert(b@ =~= b@.take(i as int));
    true
}

/// The characters of `cs` from `start` (inclusive) to `end` (exclusive).
pub fn slice_chars(cs: &Vec<char>, start: usize, end: usize) -> (r: Vec<char>)
    requires
        start <= end <= cs.len(),
    ensures
        r@ == cs@.subrange(start as int, end as int),
{
    let mut out: Vec<char> = Vec::new();
    let mut i: usize = start;
    while i < end
        invariant
            start <= i <= end,
            end <= cs.len(),
            out@ == cs@.subrange(start as int, i as int),
        decreases end - i,
    {
        out.push(cs[i]);
        assert(cs@.subrange(start as int, i + 1) =~= cs@.subrange(start as int, i as int).push(
            cs@[i as int],
        ));
        i += 1;
    }
    out
}

/// `s` without leading whitespace.
pub open spec fn trim_start(s: Seq<char>) -> Seq<char>
    decreases s.len(),
{
    if s.len() > 0 && is_white_space(s[0]) {
        trim_start(s.skip(1))
    } else {
        s
    }
}

/// `s` without trailing whitespace.
pub open spec fn trim_end(s: Seq<char>) -> Seq<char>
    decreases s.len(),
{
    if s.len() > 0 && is_white_space(s.last()) {
        trim_end(s.drop_last())
    } else {
        s
    }
}

/// `s` without leading and trailing whitespace.
pub open spec fn trim(s: Seq<char>) -> Seq<char> {
    trim_end(trim_start(s))
}

/// `cs` with leading and trailing whitespace removed.
pub fn trim_chars(cs: &Vec<char>) -> (r: Vec<char>)
    ensures
        r@ == trim(cs@),
{
    let n = cs.len();
    let mut i: usize = 0;
    assert(cs@.skip(0) =~= cs@);
    while i < n && char_is_whitespace(cs[i])
        invariant
            i <= n,
            n == cs.len(),
            trim_start(cs@) == trim_start(cs@.skip(i as int)),
        decreases n - i,
    {
        assert(cs@.skip(i as int).skip(1) =~= cs@.skip(i + 1));
        i += 1;
    }
    assert(trim_start(cs@) == cs@.skip(i as int));
    let mut j: usize = n;
    while j > i && char_is_whitespace(cs[j - 1])
        invariant
            i <= j <= n,
            n == cs.len(),
            trim_end(cs@.skip(i as int)) == trim_end(cs@.subrange(i as int, j as int)),
        decreases j,
    {
        assert(cs@.subrange(i as int, j as int).drop_last() =~= cs@.subrange(i as int, j - 1));
        j -= 1;
    }
    assert(cs@.skip(i as int) =~= cs@.subrange(i as int, n as int));
    slice_chars(cs, i, j)
}

/// The pieces of `s` between occurrences of `sep`; at least one piece.
pub open spec fn split_on(s: Seq<char>, sep: char) -> Seq<Seq<char>>
    decreases s.len(),
{
    if s.len() == 0 {
        seq![Seq::empty()]
    } else {
        let parts = split_on(s.drop_last(), sep);
        if s.last() == sep {
            parts.push(Seq::empty())
        } else {
            parts.update(parts.len() - 1, parts.last().push(s.last()))
        }
    }
}

/// The views of a sequence of character vectors.
pub open spec fn views(v: Seq<Vec<char>>) -> Seq<Seq<char>> {
    v.map_values(|p: Vec<char>| p@)
}

pub proof fn lemma_split_on_nonempty(s: Seq<char>, sep: char)
    ensures
        split_on(s, sep).len() >= 1,
    decreases s.len(),
{
    if s.len() > 0 {
        lemma_split_on_nonempty(s.drop_last(), sep);
    }
}

/// `cs` cut at each occurrence of `sep`.
pub fn split_chars(cs: &Vec<char>, sep: char) -> (r: Vec<Vec<char>>)
    ensures
        views(r@) == split_on(cs@, sep),
{
    let mut parts: Vec<Vec<char>> = Vec::new();
    let mut cur: Vec<char> = Vec::new();
    let mut i: usize = 0;
    assert(cs@.take(0) =~= Seq::<char>::empty());
    assert(views(parts@).push(cur@) =~= seq![Seq::<char>::empty()]);
    while i < cs.len()
        invariant
            i <= cs.len(),
            split_on(cs@.take(i as int), sep) == views(parts@).push(cur@),
        decreases cs.len() - i,
    {
        let c = cs[i];
        let ghost prev = views(parts@);
        let ghost prev_cur = cur@;
        assert(cs@.take(i + 1).drop_last() =~= cs@.take(i as int));
        if c == sep {
            let done = cur;
            parts.push(done);
            cur = Vec::new();
            assert(views(parts@) =~= prev.push(prev_cur));
            assert(views(parts@).push(cur@) =~= prev.push(prev_cur).push(Seq::empty()));
        } else {
            cur.push(c);
            assert(views(parts@).push(cur@) =~= prev.push(prev_cur).update(
                prev.len() as int,
                prev_cur.push(c),
            ));
        }
        i += 1;
    }
    assert(cs@.take(cs.len() as int) =~= cs@);
    let ghost before = views(parts@);
    parts.push(cur);
    assert(views(parts@) =~= before.push(cur@));
    parts
}

/// The parts joined with `sep` between each two.
pub open spec fn join_with(parts: Seq<Seq<char>>, sep: Seq<char>) -> Seq<char>
    decreases parts.len(),
{
    if parts.len() == 0 {
        Seq::empty()
    } else if parts.len() == 1 {
        parts[0]
    } else {
        join_with(parts.drop_last(), sep) + sep + parts.last()
    }
}

/// The parts joined with `sep` between each two.
pub fn join_chars(parts: &Vec<Vec<char>>, sep: &Vec<char>) -> (r: Vec<char>)
    ensures
        r@ == join_with(views(parts@), sep@),
{
    let mut out: Vec<char> = Vec::new();
    let mut k: usize = 0;
    while k < parts.len()
        invariant
            k <= parts.len(),
            out@ == join_with(views(parts@).take(k as int), sep@),
        decreases parts.len() - k,
    {
        let ghost before = out@;
        if k > 0 {
            append_chars(&mut out, sep);
        }
        append_chars(&mut out, &parts[k]);
        proof {
            let vs = views(parts@);
            assert(vs.take(k + 1).drop_last() =~= vs.take(k as int));
            if k == 0 {
                assert(vs.take(0) =~= Seq::<Seq<char>>::empty());
                assert(before + parts@[0]@ =~= parts@[0]@);
            }
        }
        k += 1;
    }
    assert(views(parts@).take(parts.len() as int) =~= views(parts@));
    out
}

/// Appends the characters of `more` to `out`.
pub fn append_chars(out: &mut Vec<char>, more: &Vec<char>)
    ensures
        final(out)@ == old(out)@ + more@,
{
    let mut j: usize = 0;
    while j < more.len()
        invariant
            j <= more.len(),
            out@ == old(out)@ + more@.take(j as int),
        decreases more.len() - j,
    {
        out.push(more[j]);
        assert(more@.take(j + 1) =~= more@.take(j as int).push(more@[j as int]));
        j += 1;
    }
    assert(more@.take(j as int) =~= more@);
}

} // verus!
