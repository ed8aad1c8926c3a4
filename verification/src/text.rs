//! Splitting and joining of keys, as sequences of characters.

use vstd::prelude::*;
use vstd::string::StringExecFns;

verus! {

/// Whether two texts hold the same characters.
pub fn same_text(a: &str, b: &str) -> (same: bool)
    ensures
        same == (a@ == b@),
{
    let left = String::from_str(a);
    let right = String::from_str(b);
    left == right
}

/// Whether `s` holds no character.
pub fn is_blank(s: &str) -> (blank: bool)
    ensures
        blank == (s@.len() == 0),
{
    s.unicode_len() == 0
}

/// The position of the first `delim` in `s`, if there is one.
pub open spec fn first_index(s: Seq<char>, delim: char) -> Option<int>
    decreases s.len(),
{
    if s.len() == 0 {
        None
    } else if s[0] == delim {
        Some(0int)
    } else {
        match first_index(s.drop_first(), delim) {
            Some(i) => Some(i + 1),
            None => None,
        }
    }
}

/// `first_index` finds an occurrence before which there is none, and finds
/// one whenever there is any.
pub proof fn lemma_first_index(s: Seq<char>, delim: char)
    ensures
        match first_index(s, delim) {
            Some(i) => 0 <= i < s.len() && s[i] == delim && forall|j: int|
                0 <= j < i ==> s[j] != delim,
            None => forall|j: int| 0 <= j < s.len() ==> s[j] != delim,
        },
    decreases s.len(),
{
    if s.len() > 0 && s[0] != delim {
        let rest = s.drop_first();
        lemma_first_index(rest, delim);
        match first_index(rest, delim) {
            Some(i) => {
                assert forall|j: int| 0 <= j < i + 1 implies s[j] != delim by {
                    if j > 0 {
                        assert(rest[j - 1] == s[j]);
                    }
                }
            },
            None => {
                assert forall|j: int| 0 <= j < s.len() implies s[j] != delim by {
                    if j > 0 {
                        assert(rest[j - 1] == s[j]);
                    }
                }
            },
        }
    }
}

/// A position that holds `delim` and has none before it is the first one.
pub proof fn lemma_first_index_is(s: Seq<char>, delim: char, i: int)
    requires
        0 <= i < s.len(),
        s[i] == delim,
        forall|j: int| 0 <= j < i ==> s[j] != delim,
    ensures
        first_index(s, delim) == Some(i),
{
    lemma_first_index(s, delim);
}

/// A sequence without `delim` has no first one.
pub proof fn lemma_first_index_none(s: Seq<char>, delim: char)
    requires
        forall|j: int| 0 <= j < s.len() ==> s[j] != delim,
    ensures
        first_index(s, delim) is None,
{
    lemma_first_index(s, delim);
}

/// What stands before the first `delim` and what stands after it.
pub open spec fn split_first(s: Seq<char>, delim: char) -> Option<(Seq<char>, Seq<char>)> {
    match first_index(s, delim) {
        Some(i) => Some((s.subrange(0, i), s.subrange(i + 1, s.len() as int))),
        None => None,
    }
}

/// Splits `s` at its first `delim`: the part before it and the part after
/// it, or `None` where `s` holds no `delim`.
pub fn split_once(s: &str, delim: char) -> (parts: Option<(&str, &str)>)
    ensures
        match parts {
            Some((head, tail)) => split_first(s@, delim) == Some((head@, tail@)),
            None => split_first(s@, delim) is None,
        },
{
    let n: usize = s.unicode_len();
    let mut i: usize = 0;
    while i < n
        invariant
            n == s@.len(),
            i <= n,
            forall|j: int| 0 <= j < i ==> s@[j] != delim,
        decreases n - i,
    {
        if s.get_char(i) == delim {
            proof {
                lemma_first_index_is(s@, delim, i as int);
            }
            let head = s.substring_char(0, i);
            let tail = s.substring_char(i + 1, n);
            return Some((head, tail));
        }
        i += 1;
    }
    proof {
        lemma_first_index_none(s@, delim);
    }
    None
}

/// Whether `s` begins with `prefix`.
pub open spec fn has_prefix(s: Seq<char>, prefix: Seq<char>) -> bool {
    s.len() >= prefix.len() && s.subrange(0, prefix.len() as int) == prefix
}

/// What follows `prefix` in `s`, where `s` begins with it.
pub open spec fn after_prefix(s: Seq<char>, prefix: Seq<char>) -> Option<Seq<char>> {
    if has_prefix(s, prefix) {
        Some(s.subrange(prefix.len() as int, s.len() as int))
    } else {
        None
    }
}

/// What follows `prefix` in `s`, or `None` where `s` does not begin with
/// it.
pub fn strip_prefix<'a>(s: &'a str, prefix: &str) -> (rest: Option<&'a str>)
    ensures
        match rest {
            Some(r) => after_prefix(s@, prefix@) == Some(r@),
            None => after_prefix(s@, prefix@) is None,
        },
{
    let n = prefix.unicode_len();
    let m = s.unicode_len();
    if m < n {
        return None;
    }
    if same_text(s.substring_char(0, n), prefix) {
        Some(s.substring_char(n, m))
    } else {
        None
    }
}

/// The parts of `s` between its `delim`s: one more than it has `delim`s.
pub open spec fn tokens(s: Seq<char>, delim: char) -> Seq<Seq<char>>
    decreases s.len(),
{
    match first_index(s, delim) {
        Some(i) => if 0 <= i < s.len() {
            seq![s.subrange(0, i)] + tokens(s.subrange(i + 1, s.len() as int), delim)
        } else {
            seq![s]
        },
        None => seq![s],
    }
}

/// The parts of `s` are its part before the first `delim` and the parts of
/// what follows it.
pub proof fn lemma_tokens_step(s: Seq<char>, delim: char)
    ensures
        tokens(s, delim) == match split_first(s, delim) {
            Some((head, tail)) => seq![head] + tokens(tail, delim),
            None => seq![s],
        },
{
    lemma_first_index(s, delim);
}

} // verus!
