//! Assignment of unique short identifiers to a batch of items.

use vstd::prelude::*;
use crate::text::{chars_of, string_of};
use crate::todo::{base_identifier, Todo};

verus! {

/// The decimal digits, by value.
pub open spec fn digits() -> Seq<char> {
    seq!['0', '1', '2', '3', '4', '5', '6', '7', '8', '9']
}

pub open spec fn is_digit(c: char) -> bool {
    '0' <= c <= '9'
}

/// The decimal writing of `n`, without leading zeros.
pub open spec fn decimal(n: nat) -> Seq<char>
    decreases n,
{
    if n < 10 {
        seq![digits()[n as int]]
    } else {
        decimal(n / 10).push(digits()[(n % 10) as int])
    }
}

/// The identifier given to the `n`-th repeat (`1 <= n <= 999`) of `base`.
pub open spec fn collision_code(base: Seq<char>, n: nat) -> Seq<char> {
    if 1 <= n <= 9 && base.len() >= 2 {
        base.take(base.len() - 1) + decimal(n)
    } else if 10 <= n <= 99 && base.len() >= 2 {
        base.take(base.len() - 2) + decimal(n)
    } else {
        decimal(n)
    }
}

/// How many times `x` occurs in `s`.
pub open spec fn count_of(s: Seq<Seq<char>>, x: Seq<char>) -> nat
    decreases s.len(),
{
    if s.len() == 0 {
        0
    } else {
        count_of(s.drop_last(), x) + if s.last() == x {
            1nat
        } else {
            0nat
        }
    }
}

/// How many earlier entries of `bases` equal entry `i`.
pub open spec fn repeats_before(bases: Seq<Seq<char>>, i: int) -> nat {
    count_of(bases.take(i), bases[i])
}

/// The identifier of an entry whose base was seen `k` times before.
pub open spec fn identifier_for(base: Seq<char>, k: nat) -> Seq<char> {
    if k == 0 {
        base
    } else {
        collision_code(base, k)
    }
}

/// The identifiers of a batch, given the base identifier of each entry.
pub open spec fn assigned(bases: Seq<Seq<char>>) -> Seq<Seq<char>> {
    Seq::new(bases.len(), |i: int| identifier_for(bases[i], repeats_before(bases, i)))
}

/// Whether some base identifier is repeated more than 999 times.
pub open spec fn overflows(bases: Seq<Seq<char>>) -> bool {
    exists|i: int| 0 <= i < bases.len() && repeats_before(bases, i) > 999
}

/// The base identifier of each name.
pub open spec fn bases_of(names: Seq<Seq<char>>) -> Seq<Seq<char>> {
    names.map_values(|n: Seq<char>| base_identifier(n))
}

/// The names of a batch of items.
pub open spec fn names_of(todos: Seq<Todo>) -> Seq<Seq<char>> {
    todos.map_values(|t: Todo| t.name@)
}

/// The views of a sequence of strings.
pub open spec fn string_views(v: Seq<String>) -> Seq<Seq<char>> {
    v.map_values(|s: String| s@)
}

/// Raised when more than 999 items repeat one base identifier.
#[derive(Debug, Clone)]
pub struct CollisionOverflow {
    /// The base identifier that ran out of codes.
    pub base: String,
}

/// The decimal writing of `n`.
pub fn decimal_string(n: usize) -> (r: Vec<char>)
    requires
        n <= 999,
    ensures
        r@ == decimal(n as nat),
{
    let ds = vec!['0', '1', '2', '3', '4', '5', '6', '7', '8', '9'];
    assert(ds@ =~= digits());
    let mut out: Vec<char> = Vec::new();
    if n >= 100 {
        out.push(ds[n / 100]);
    }
    if n >= 10 {
        out.push(ds[(n / 10) % 10]);
    }
    out.push(ds[n % 10]);
    proof {
        let m = n as nat;
        if m >= 100 {
            assert(decimal(m / 10 / 10) == seq![digits()[(m / 100) as int]]);
            assert(decimal(m / 10) == decimal(m / 10 / 10).push(digits()[((m / 10) % 10) as int]));
        } else if m >= 10 {
            assert(decimal(m / 10) == seq![digits()[((m / 10) % 10) as int]]);
        }
    }
    assert(out@ =~= decimal(n as nat));
    out
}

/// The identifier for the `n`-th repeat of `base_id`.
pub fn resolve_collision(base_id: &str, n: usize) -> (r: String)
    requires
        1 <= n <= 999,
    ensures
        r@ == collision_code(base_id@, n as nat),
{
    let cs = chars_of(base_id);
    let base_len = cs.len();
    let keep: usize = if n <= 99 && base_len >= 2 {
        if n <= 9 {
            base_len - 1
        } else {
            base_len - 2
        }
    } else {
        0
    };
    let mut out: Vec<char> = Vec::new();
    let mut i: usize = 0;
    while i < keep
        invariant
            i <= keep <= cs.len(),
            out@ == cs@.take(i as int),
        decreases keep - i,
    {
        out.push(cs[i]);
        assert(cs@.take(i + 1) =~= cs@.take(i as int).push(cs@[i as int]));
        i += 1;
    }
    let ds = decimal_string(n);
    let mut j: usize = 0;
    while j < ds.len()
        invariant
            j <= ds.len(),
            out@ == cs@.take(keep as int) + ds@.take(j as int),
        decreases ds.len() - j,
    {
        out.push(ds[j]);
        assert(ds@.take(j + 1) =~= ds@.take(j as int).push(ds@[j as int]));
        j += 1;
    }
    assert(ds@.take(j as int) =~= ds@);
    assert(cs@.take(0) =~= Seq::<char>::empty());
    assert(out@ =~= collision_code(base_id@, n as nat));
    string_of(&out)
}

/// The identifiers for a batch, given the base identifier of each entry, in
/// order: the first entry with a base keeps it, the `k`-th repeat gets
/// `collision_code(base, k)`. Fails when more than 999 entries repeat one
/// base identifier; the error names the first base to run out.
pub fn identifiers_for_bases(base_ids: &[String]) -> (r: Result<Vec<String>, CollisionOverflow>)
    ensures
        ({
            let bases = string_views(base_ids@);
            &&& r is Err <==> overflows(bases)
            &&& r matches Err(e) ==> exists|i: int|
                0 <= i < bases.len() && repeats_before(bases, i) > 999 && e.base@ == bases[i]
                    && forall|j: int| 0 <= j < i ==> repeats_before(bases, j) <= 999
            &&& r matches Ok(ids) ==> string_views(ids@) == assigned(bases)
        }),
{
    let n = base_ids.len();
    let ghost bases = string_views(base_ids@);
    let mut ids: Vec<String> = Vec::new();
    let mut i: usize = 0;
    while i < n
        invariant
            i <= n == base_ids.len() == bases.len(),
            bases == string_views(base_ids@),
            string_views(ids@) == assigned(bases).take(i as int),
            forall|j: int| 0 <= j < i ==> repeats_before(bases, j) <= 999,
        decreases n - i,
    {
        let mut count: usize = 0;
        let mut j: usize = 0;
        while j < i
            invariant
                j <= i < n == base_ids.len() == bases.len(),
                bases == string_views(base_ids@),
                count == count_of(bases.take(j as int), bases[i as int]),
                count <= j,
            decreases i - j,
        {
            assert(bases.take(j + 1).drop_last() =~= bases.take(j as int));
            assert(base_ids@[j as int]@ == bases[j as int]);
            assert(base_ids@[i as int]@ == bases[i as int]);
            if base_ids[j] == base_ids[i] {
                count += 1;
            }
            j += 1;
        }
        assert(count == repeats_before(bases, i as int));
        assert(base_ids@[i as int]@ == bases[i as int]);
        if count > 999 {
            let e = CollisionOverflow { base: base_ids[i].clone() };
            assert(repeats_before(bases, i as int) > 999);
            return Err(e);
        }
        let id = if count == 0 {
            base_ids[i].clone()
        } else {
            resolve_collision(base_ids[i].as_str(), count)
        };
        let ghost before = string_views(ids@);
        ids.push(id);
        assert(string_views(ids@) =~= before.push(id@));
        assert(assigned(bases).take(i + 1) =~= assigned(bases).take(i as int).push(
            assigned(bases)[i as int],
        ));
        i += 1;
    }
    assert(assigned(bases).take(n as int) =~= assigned(bases));
    Ok(ids)
}

/// Gives every item its identifier, derived from the base identifiers of
/// the names (see `identifiers_for_bases`). Fails, leaving the items as
/// they were, when more than 999 items repeat one base identifier.
pub fn assign_identifiers(todos: &mut Vec<Todo>) -> (r: Result<(), CollisionOverflow>)
    ensures
        ({
            let bases = bases_of(names_of(old(todos)@));
            &&& r is Err <==> overflows(bases)
            &&& r is Err ==> final(todos)@ == old(todos)@
            &&& r matches Err(e) ==> exists|i: int|
                0 <= i < bases.len() && repeats_before(bases, i) > 999 && e.base@ == bases[i]
                    && forall|j: int| 0 <= j < i ==> repeats_before(bases, j) <= 999
            &&& r is Ok ==> final(todos)@.len() == old(todos)@.len()
            &&& r is Ok ==> forall|i: int|
                0 <= i < old(todos)@.len() ==> {
                    let (t, u) = (#[trigger] final(todos)@[i], old(todos)@[i]);
                    &&& t.name == u.name
                    &&& t.tags == u.tags
                    &&& t.is_completed == u.is_completed
                    &&& t.index == u.index
                    &&& t.identifier@ == assigned(bases)[i]
                }
        }),
{
    let n = todos.len();
    let ghost bases = bases_of(names_of(todos@));
    let mut base_ids: Vec<String> = Vec::new();
    let mut k: usize = 0;
    while k < n
        invariant
            k <= n == todos.len(),
            bases == bases_of(names_of(todos@)),
            string_views(base_ids@) == bases.take(k as int),
        decreases n - k,
    {
        let b = Todo::generate_base_identifier(todos[k].name.as_str());
        let ghost before = string_views(base_ids@);
        base_ids.push(b);
        assert(string_views(base_ids@) =~= before.push(b@));
        assert(bases.take(k + 1) =~= bases.take(k as int).push(bases[k as int]));
        k += 1;
    }
    assert(bases.take(n as int) =~= bases);
    let ids = match identifiers_for_bases(base_ids.as_slice()) {
        Ok(ids) => ids,
        Err(e) => {
            return Err(e);
        },
    };
    assert(ids@.len() == string_views(ids@).len());
    let ghost old_todos = todos@;
    let mut m: usize = 0;
    while m < n
        invariant
            m <= n == todos.len() == ids.len() == old_todos.len(),
            string_views(ids@) == assigned(bases),
            forall|q: int| m <= q < n ==> todos@[q] == old_todos[q],
            forall|q: int|
                0 <= q < m ==> {
                    let (t, u) = (#[trigger] todos@[q], old_todos[q]);
                    &&& t.name == u.name
                    &&& t.tags == u.tags
                    &&& t.is_completed == u.is_completed
                    &&& t.index == u.index
                    &&& t.identifier@ == assigned(bases)[q]
                },
        decreases n - m,
    {
        let id = ids[m].clone();
        assert(id@ == assigned(bases)[m as int]);
        todos[m].identifier = id;
        m += 1;
    }
    Ok(())
}

/// Whether no character of `s` is a decimal digit.
pub open spec fn digit_free(s: Seq<char>) -> bool {
    forall|k: int| 0 <= k < s.len() ==> !is_digit(#[trigger] s[k])
}

/// Whether every character of `s` is a decimal digit.
pub open spec fn all_digits(s: Seq<char>) -> bool {
    forall|k: int| 0 <= k < s.len() ==> is_digit(#[trigger] s[k])
}

/// What a collision code keeps of its base.
pub open spec fn code_prefix(base: Seq<char>, n: nat) -> Seq<char> {
    if 1 <= n <= 9 && base.len() >= 2 {
        base.take(base.len() - 1)
    } else if 10 <= n <= 99 && base.len() >= 2 {
        base.take(base.len() - 2)
    } else {
        Seq::empty()
    }
}

proof fn lemma_digit_values(d: nat)
    requires
        d < 10,
    ensures
        is_digit(digits()[d as int]),
        digits()[d as int] as u32 == '0' as u32 + d,
{
}

proof fn lemma_decimal_shape(n: nat)
    ensures
        decimal(n).len() >= 1,
        all_digits(decimal(n)),
        n >= 10 ==> decimal(n).len() >= 2,
    decreases n,
{
    if n < 10 {
        lemma_digit_values(n);
    } else {
        lemma_decimal_shape(n / 10);
        lemma_digit_values(n % 10);
    }
}

proof fn lemma_decimal_injective(a: nat, b: nat)
    requires
        decimal(a) == decimal(b),
    ensures
        a == b,
    decreases a,
{
    lemma_decimal_shape(a);
    lemma_decimal_shape(b);
    if a < 10 && b < 10 {
        lemma_digit_values(a);
        lemma_digit_values(b);
        assert(decimal(a)[0] == digits()[a as int]);
        assert(decimal(b)[0] == digits()[b as int]);
    } else if a >= 10 && b >= 10 {
        let (da, db) = (decimal(a), decimal(b));
        assert(da.last() == db.last());
        lemma_digit_values(a % 10);
        lemma_digit_values(b % 10);
        assert(da.last() == digits()[(a % 10) as int]);
        assert(db.last() == digits()[(b % 10) as int]);
        assert(a % 10 == b % 10);
        assert(da.drop_last() =~= decimal(a / 10));
        assert(db.drop_last() =~= decimal(b / 10));
        lemma_decimal_injective(a / 10, b / 10);
    } else {
        assert(decimal(a).len() != decimal(b).len());
    }
}

proof fn lemma_code_shape(base: Seq<char>, n: nat)
    requires
        digit_free(base),
        1 <= n <= 999,
    ensures
        collision_code(base, n) == code_prefix(base, n) + decimal(n),
        digit_free(code_prefix(base, n)),
{
    let p = code_prefix(base, n);
    assert forall|k: int| 0 <= k < p.len() implies !is_digit(#[trigger] p[k]) by {
        assert(p[k] == base[k]);
    }
}

proof fn lemma_split_digit_suffix(front_a: Seq<char>, tail_a: Seq<char>, front_b: Seq<char>, tail_b: Seq<char>)
    requires
        digit_free(front_a),
        digit_free(front_b),
        all_digits(tail_a),
        all_digits(tail_b),
        tail_a.len() >= 1,
        tail_b.len() >= 1,
        front_a + tail_a == front_b + tail_b,
    ensures
        tail_a == tail_b,
{
    let s = front_a + tail_a;
    if front_a.len() < front_b.len() {
        assert(s[front_a.len() as int] == tail_a[0]);
        assert((front_b + tail_b)[front_a.len() as int] == front_b[front_a.len() as int]);
    } else if front_b.len() < front_a.len() {
        assert(s[front_b.len() as int] == front_a[front_b.len() as int]);
        assert((front_b + tail_b)[front_b.len() as int] == tail_b[0]);
    } else {
        assert(tail_a =~= s.skip(front_a.len() as int));
        assert(tail_b =~= (front_b + tail_b).skip(front_b.len() as int));
    }
}

/// Two different repeat counts of one digit-free base give different
/// identifiers.
pub proof fn lemma_same_base_distinct(base: Seq<char>, k1: nat, k2: nat)
    requires
        digit_free(base),
        k1 < k2 <= 999,
    ensures
        identifier_for(base, k1) != identifier_for(base, k2),
{
    lemma_code_shape(base, k2);
    lemma_decimal_shape(k2);
    let c2 = collision_code(base, k2);
    if k1 == 0 {
        if base == c2 {
            let p = code_prefix(base, k2);
            let d = decimal(k2);
            assert(c2[c2.len() - 1] == d[d.len() - 1]);
            assert(!is_digit(base[base.len() - 1]));
        }
    } else {
        lemma_code_shape(base, k1);
        lemma_decimal_shape(k1);
        if collision_code(base, k1) == c2 {
            lemma_split_digit_suffix(
                code_prefix(base, k1),
                decimal(k1),
                code_prefix(base, k2),
                decimal(k2),
            );
            lemma_decimal_injective(k1, k2);
        }
    }
}

proof fn lemma_count_grows(s: Seq<Seq<char>>, x: Seq<char>, a: int, b: int)
    requires
        0 <= a <= b <= s.len(),
    ensures
        count_of(s.take(a), x) <= count_of(s.take(b), x),
        a < b && s[a] == x ==> count_of(s.take(a), x) < count_of(s.take(b), x),
    decreases b - a,
{
    if a < b {
        lemma_count_grows(s, x, a, b - 1);
        assert(s.take(b).drop_last() =~= s.take(b - 1));
        if a == b - 1 {
            assert(s.take(b).last() == s[a]);
        }
    }
}

/// Two entries of a batch with the same digit-free base identifier get
/// different identifiers, as long as no more than 999 entries repeat a base
/// identifier.
pub proof fn lemma_same_base_entries_distinct(names: Seq<Seq<char>>)
    requires
        !overflows(bases_of(names)),
    ensures
        forall|i: int, j: int|
            0 <= i < names.len() && 0 <= j < names.len() && i != j && bases_of(names)[i]
                == bases_of(names)[j] && digit_free(bases_of(names)[i]) ==> #[trigger] assigned(
                bases_of(names),
            )[i] != #[trigger] assigned(bases_of(names))[j],
{
    let bases = bases_of(names);
    assert forall|i: int, j: int|
        0 <= i < names.len() && 0 <= j < names.len() && i != j && bases[i] == bases[j]
            && digit_free(bases[i]) implies #[trigger] assigned(bases)[i] != #[trigger] assigned(
        bases,
    )[j] by {
        let (ki, kj) = (repeats_before(bases, i), repeats_before(bases, j));
        assert(ki <= 999 && kj <= 999);
        if i < j {
            lemma_count_grows(bases, bases[i], i, j);
            lemma_same_base_distinct(bases[i], ki, kj);
        } else {
            lemma_count_grows(bases, bases[j], j, i);
            lemma_same_base_distinct(bases[j], kj, ki);
        }
    }
}

/// Within one batch the assigned identifiers are pairwise distinct, as long
/// as no more than 999 items repeat a base identifier, no base identifier
/// holds a decimal digit, and no two different base identifiers produce the
/// same collision code at the repeat counts they reach.
pub proof fn lemma_assigned_distinct(names: Seq<Seq<char>>)
    requires
        !overflows(bases_of(names)),
        forall|i: int| 0 <= i < names.len() ==> digit_free(#[trigger] bases_of(names)[i]),
        forall|i: int, j: int|
            0 <= i < names.len() && 0 <= j < names.len() && bases_of(names)[i] != bases_of(
                names,
            )[j] && repeats_before(bases_of(names), i) >= 1 && repeats_before(bases_of(names), j)
                >= 1 ==> #[trigger] collision_code(
                bases_of(names)[i],
                repeats_before(bases_of(names), i),
            ) != #[trigger] collision_code(bases_of(names)[j], repeats_before(bases_of(names), j)),
    ensures
        forall|i: int, j: int|
            0 <= i < names.len() && 0 <= j < names.len() && i != j ==> #[trigger] assigned(
                bases_of(names),
            )[i] != #[trigger] assigned(bases_of(names))[j],
{
    let bases = bases_of(names);
    assert forall|i: int, j: int|
        0 <= i < names.len() && 0 <= j < names.len() && i != j implies #[trigger] assigned(
        bases,
    )[i] != #[trigger] assigned(bases)[j] by {
        let (ki, kj) = (repeats_before(bases, i), repeats_before(bases, j));
        assert(ki <= 999 && kj <= 999);
        assert(digit_free(bases[i]) && digit_free(bases[j]));
        if bases[i] == bases[j] {
            lemma_same_base_entries_distinct(names);
        } else if ki == 0 && kj >= 1 {
            lemma_code_shape(bases[j], kj);
            lemma_decimal_shape(kj);
            let c = collision_code(bases[j], kj);
            if bases[i] == c {
                let d = decimal(kj);
                assert(c[c.len() - 1] == d[d.len() - 1]);
                assert(!is_digit(bases[i][bases[i].len() - 1]));
            }
        } else if kj == 0 && ki >= 1 {
            lemma_code_shape(bases[i], ki);
            lemma_decimal_shape(ki);
            let c = collision_code(bases[i], ki);
            if bases[j] == c {
                let d = decimal(ki);
                assert(c[c.len() - 1] == d[d.len() - 1]);
                assert(!is_digit(bases[j][bases[j].len() - 1]));
            }
        }
    }
}

} // verus!
