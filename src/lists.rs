//! The two named lists, and reading command arguments that address them.

use vstd::prelude::*;
use crate::text::{chars_of, same_chars};

verus! {

/// The lower-case form of a string.
pub uninterp spec fn lowercase_of(s: Seq<char>) -> Seq<char>;

/// The upper-case form of a string.
pub uninterp spec fn uppercase_of(s: Seq<char>) -> Seq<char>;

/// Relies on `str::to_lowercase`: the result depends on the characters alone.
#[verifier::external_body]
fn to_lower(s: &str) -> (r: String)
    ensures
        r@ == lowercase_of(s@),
{
    s.to_lowercase()
}

/// Relies on `str::to_uppercase`: the result depends on the characters alone.
#[verifier::external_body]
pub(crate) fn upper(s: &str) -> (r: String)
    ensures
        r@ == uppercase_of(s@),
{
    s.to_uppercase()
}

/// One of the two lists of the store.
#[derive(Clone, Copy, Debug, PartialEq, Eq, Structural)]
pub enum ListName {
    Inbox,
    Today,
}

/// The keyword that names the inbox.
pub open spec fn inbox_word() -> Seq<char> {
    seq!['i', 'n', 'b', 'o', 'x']
}

/// The keyword that names today's list.
pub open spec fn today_word() -> Seq<char> {
    seq!['t', 'o', 'd', 'a', 'y']
}

/// The list that a lower-case word names.
pub open spec fn list_of_lowercase(lower: Seq<char>) -> Option<ListName> {
    if lower == inbox_word() {
        Some(ListName::Inbox)
    } else if lower == today_word() {
        Some(ListName::Today)
    } else {
        None
    }
}

/// The list that a word names, whatever its case.
pub open spec fn list_keyword(word: Seq<char>) -> Option<ListName> {
    list_of_lowercase(lowercase_of(word))
}

impl ListName {
    /// The list's title in the store.
    pub open spec fn spec_title(self) -> Seq<char> {
        match self {
            ListName::Inbox => seq!['I', 'n', 'b', 'o', 'x'],
            ListName::Today => seq!['T', 'o', 'd', 'a', 'y'],
        }
    }

    /// The list's title in the store.
    pub fn title(&self) -> (r: &'static str)
        ensures
            r@ == self.spec_title(),
    {
        match self {
            ListName::Inbox => {
                proof {
                    reveal_strlit("Inbox");
                }
                let r = "Inbox";
                assert(r@ =~= self.spec_title());
                r
            },
            ListName::Today => {
                proof {
                    reveal_strlit("Today");
                }
                let r = "Today";
                assert(r@ =~= self.spec_title());
                r
            },
        }
    }
}

/// The list that `word` names, whatever its case.
pub fn keyword_list(word: &str) -> (r: Option<ListName>)
    ensures
        r == list_keyword(word@),
{
    let lower = to_lower(word);
    lowercase_list(lower.as_str())
}

/// The list that an already lower-cased word names.
pub fn lowercase_list(lower: &str) -> (r: Option<ListName>)
    ensures
        r == list_of_lowercase(lower@),
{
    let cs = chars_of(lower);
    let inbox = vec!['i', 'n', 'b', 'o', 'x'];
    let today = vec!['t', 'o', 'd', 'a', 'y'];
    assert(inbox@ =~= inbox_word());
    assert(today@ =~= today_word());
    if same_chars(&cs, &inbox) {
        Some(ListName::Inbox)
    } else if same_chars(&cs, &today) {
        Some(ListName::Today)
    } else {
        None
    }
}

/// The title of the list that `name` names; otherwise an error message
/// quoting `name`.
pub fn parse_list_name(name: &str) -> (r: Result<&'static str, String>)
    ensures
        r is Ok <==> list_keyword(name@) is Some,
        r matches Ok(t) ==> t@ == list_keyword(name@)->0.spec_title(),
        r matches Err(m) ==> m@ == "Unknown list '"@ + name@ + "'. Valid lists: inbox, today"@,
{
    match keyword_list(name) {
        Some(l) => Ok(l.title()),
        None => {
            let mut m = String::from_str("Unknown list '");
            m.append(name);
            m.append("'. Valid lists: inbox, today");
            Err(m)
        },
    }
}

/// The value of a character that is a decimal digit.
pub open spec fn digit_value(c: char) -> nat {
    (c as u32 - '0' as u32) as nat
}

/// Whether every character of `s` is a decimal digit.
pub open spec fn is_numeral(s: Seq<char>) -> bool {
    forall|k: int| 0 <= k < s.len() ==> '0' <= #[trigger] s[k] <= '9'
}

/// The value of a string of decimal digits.
pub open spec fn numeral_value(s: Seq<char>) -> nat
    decreases s.len(),
{
    if s.len() == 0 {
        0
    } else {
        numeral_value(s.drop_last()) * 10 + digit_value(s.last())
    }
}

/// What a leading `'+'` leaves of `s`.
pub open spec fn unsigned_body(s: Seq<char>) -> Seq<char> {
    if s.len() > 0 && s[0] == '+' {
        s.skip(1)
    } else {
        s
    }
}

/// The machine-size unsigned number that `s` writes in decimal, with an
/// optional leading `'+'`.
pub open spec fn parsed_number(s: Seq<char>) -> Option<nat> {
    let body = unsigned_body(s);
    if body.len() > 0 && is_numeral(body) && numeral_value(body) <= usize::MAX {
        Some(numeral_value(body))
    } else {
        None
    }
}

proof fn lemma_numeral_prefix(s: Seq<char>, i: int)
    requires
        0 <= i < s.len(),
        is_numeral(s),
    ensures
        numeral_value(s.take(i)) <= numeral_value(s.take(i + 1)),
        numeral_value(s.take(i + 1)) == numeral_value(s.take(i)) * 10 + digit_value(s[i]),
{
    assert(s.take(i + 1).drop_last() =~= s.take(i));
}

proof fn lemma_numeral_grows(s: Seq<char>, i: int, j: int)
    requires
        0 <= i <= j <= s.len(),
        is_numeral(s),
    ensures
        numeral_value(s.take(i)) <= numeral_value(s.take(j)),
    decreases j - i,
{
    if i < j {
        lemma_numeral_grows(s, i, j - 1);
        lemma_numeral_prefix(s, j - 1);
    }
}

/// The number that `s` writes, as `str::parse::<usize>` reads it.
pub fn parse_number(s: &str) -> (r: Option<usize>)
    ensures
        r matches Some(n) ==> parsed_number(s@) == Some(n as nat),
        r is None ==> parsed_number(s@) is None,
{
    let cs = chars_of(s);
    let start: usize = if cs.len() > 0 && cs[0] == '+' {
        1
    } else {
        0
    };
    let ghost body = unsigned_body(s@);
    assert(body =~= cs@.skip(start as int));
    if start == cs.len() {
        return None;
    }
    let mut value: usize = 0;
    let mut i: usize = start;
    while i < cs.len()
        invariant
            start <= i <= cs.len(),
            start < cs.len(),
            body == cs@.skip(start as int),
            body == unsigned_body(s@),
            is_numeral(body.take(i - start)),
            value as nat == numeral_value(body.take(i - start)),
        decreases cs.len() - i,
    {
        let c = cs[i];
        assert(body[i - start] == c);
        if c < '0' || c > '9' {
            assert(!is_numeral(body));
            return None;
        }
        let d = (c as u32 - '0' as u32) as usize;
        assert(body.take(i - start + 1).drop_last() =~= body.take(i - start));
        assert(is_numeral(body.take(i - start + 1)));
        match value.checked_mul(10) {
            Some(v) => match v.checked_add(d) {
                Some(w) => {
                    value = w;
                },
                None => {
                    proof {
                        if is_numeral(body) {
                            lemma_numeral_grows(body, i - start + 1, body.len() as int);
                            assert(body.take(body.len() as int) =~= body);
                        }
                    }
                    return None;
                },
            },
            None => {
                proof {
                    if is_numeral(body) {
                        lemma_numeral_grows(body, i - start + 1, body.len() as int);
                        assert(body.take(body.len() as int) =~= body);
                    }
                }
                return None;
            },
        }
        i += 1;
    }
    assert(body.take(i - start) =~= body);
    Some(value)
}

} // verus!
