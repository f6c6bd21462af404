//! Work on the texts of entry names: prefixes, path segments, decimal numbers.

use vstd::prelude::*;
use vstd::string::{StrSliceExecFns, StringExecFns};

verus! {

/// Whether a text ends with the character `c`.
pub open spec fn ends_with(s: Seq<char>, c: char) -> bool {
    s.len() > 0 && s.last() == c
}

/// Where `c` stands first in a text, or the length of the text where it does
/// not stand in it.
pub open spec fn first_index_of(s: Seq<char>, c: char) -> int
    decreases s.len(),
{
    if s.len() == 0 {
        0
    } else if s[0] == c {
        0
    } else {
        1 + first_index_of(s.skip(1), c)
    }
}

/// What follows the last `c` of a text; the whole text where `c` does not
/// stand in it.
pub open spec fn after_last(s: Seq<char>, c: char) -> Seq<char>
    decreases s.len(),
{
    if s.len() == 0 {
        s
    } else if s.last() == c {
        Seq::empty()
    } else {
        after_last(s.drop_last(), c).push(s.last())
    }
}

/// The `k`-th of the parts into which the character `c` divides a text, the
/// first part being part 0; the empty text where there are not that many.
pub open spec fn part(s: Seq<char>, c: char, k: nat) -> Seq<char>
    decreases k,
{
    let cut = first_index_of(s, c);
    if k == 0 {
        s.subrange(0, cut)
    } else if cut >= s.len() {
        Seq::empty()
    } else {
        part(s.skip(cut + 1), c, (k - 1) as nat)
    }
}

/// The first index from `from` on at which `c` stands, found by looking at
/// one character after the other.
pub proof fn lemma_first_index_from(s: Seq<char>, c: char, from: int, at: int)
    requires
        0 <= from <= at <= s.len(),
        forall|i: int| from <= i < at ==> s[i] != c,
        at < s.len() ==> s[at] == c,
    ensures
        first_index_of(s.skip(from), c) == at - from,
    decreases at - from,
{
    if from < at {
        assert(s.skip(from)[0] == s[from]);
        assert(s.skip(from).skip(1) =~= s.skip(from + 1));
        lemma_first_index_from(s, c, from + 1, at);
    } else if at < s.len() {
        assert(s.skip(from)[0] == s[at]);
    }
}

/// Whether a text starts with `prefix`.
pub fn has_prefix(s: &str, prefix: &str) -> (r: bool)
    ensures
        r == prefix@.is_prefix_of(s@),
{
    let n: usize = prefix.unicode_len();
    if s.unicode_len() < n {
        return false;
    }
    let mut i: usize = 0;
    while i < n
        invariant
            i <= n,
            n == prefix@.len(),
            n <= s@.len(),
            forall|j: int| 0 <= j < i ==> s@[j] == prefix@[j],
        decreases n - i,
    {
        if s.get_char(i) != prefix.get_char(i) {
            assert(s@.subrange(0, n as int)[i as int] != prefix@[i as int]);
            return false;
        }
        i = i + 1;
    }
    assert(s@.subrange(0, n as int) =~= prefix@);
    true
}

/// Whether a text ends with the character `c`.
pub fn has_last_char(s: &str, c: char) -> (r: bool)
    ensures
        r == ends_with(s@, c),
{
    let n: usize = s.unicode_len();
    n > 0 && s.get_char(n - 1) == c
}

/// The index of the first `c` at or after `from`, or the length of the text.
pub fn find_from(s: &str, c: char, from: usize) -> (at: usize)
    requires
        from <= s@.len(),
    ensures
        from <= at <= s@.len(),
        at - from == first_index_of(s@.skip(from as int), c),
{
    let n: usize = s.unicode_len();
    let mut at: usize = from;
    while at < n && s.get_char(at) != c
        invariant
            from <= at <= n,
            n == s@.len(),
            forall|i: int| from <= i < at ==> s@[i] != c,
        decreases n - at,
    {
        at = at + 1;
    }
    proof {
        lemma_first_index_from(s@, c, from as int, at as int);
    }
    at
}

/// What follows the last `c` of a text; the whole text where `c` does not
/// stand in it.
pub fn tail_after_last(s: &str, c: char) -> (r: &str)
    ensures
        r@ == after_last(s@, c),
{
    let n: usize = s.unicode_len();
    let mut start: usize = n;
    assert(s@.subrange(start as int, n as int) =~= after_last(s@.subrange(start as int, n as int), c));
    while start > 0 && s.get_char(start - 1) != c
        invariant
            start <= n,
            n == s@.len(),
            s@.subrange(start as int, n as int) == after_last(
                s@.subrange(start as int, n as int),
                c,
            ),
            forall|i: int| start <= i < n ==> s@[i] != c,
        decreases start,
    {
        start = start - 1;
        proof {
            lemma_after_last_none(s@.subrange(start as int, n as int), c);
        }
    }
    proof {
        lemma_after_last_cut(s@, c, start as int);
    }
    s.substring_char(start, n)
}

/// A text in which `c` does not stand is what follows its last `c`.
pub proof fn lemma_after_last_none(s: Seq<char>, c: char)
    requires
        forall|i: int| 0 <= i < s.len() ==> s[i] != c,
    ensures
        after_last(s, c) == s,
    decreases s.len(),
{
    if s.len() > 0 {
        lemma_after_last_none(s.drop_last(), c);
        assert(s.drop_last().push(s.last()) =~= s);
    }
}

/// Where no `c` stands from `start` on, and one stands just before `start` or
/// `start` is the beginning, what follows the last `c` starts at `start`.
pub proof fn lemma_after_last_cut(s: Seq<char>, c: char, start: int)
    requires
        0 <= start <= s.len(),
        forall|i: int| start <= i < s.len() ==> s[i] != c,
        start > 0 ==> s[start - 1] == c,
    ensures
        after_last(s, c) == s.subrange(start, s.len() as int),
    decreases s.len() - start,
{
    if start == s.len() {
        if s.len() > 0 {
            assert(s.last() == c);
        }
        assert(s.subrange(start, s.len() as int) =~= Seq::<char>::empty());
    } else {
        lemma_after_last_cut(s.drop_last(), c, start);
        assert(s.drop_last().subrange(start, s.len() - 1).push(s.last()) =~= s.subrange(
            start,
            s.len() as int,
        ));
    }
}

/// The `k`-th of the parts into which `c` divides a text.
pub fn nth_part(s: &str, c: char, k: usize) -> (r: &str)
    ensures
        r@ == part(s@, c, k as nat),
{
    let n: usize = s.unicode_len();
    let mut from: usize = 0;
    let mut left: usize = k;
    assert(s@.skip(0) =~= s@);
    loop
        invariant
            from <= n,
            n == s@.len(),
            left <= k,
            part(s@, c, k as nat) == part(s@.skip(from as int), c, left as nat),
        decreases left,
    {
        let cut = find_from(s, c, from);
        if left == 0 {
            assert(s@.skip(from as int).subrange(0, cut - from) =~= s@.subrange(
                from as int,
                cut as int,
            ));
            return s.substring_char(from, cut);
        }
        if cut >= n {
            assert(s@.subrange(0, 0) =~= Seq::<char>::empty());
            return s.substring_char(0, 0);
        }
        assert(s@.skip(from as int).skip(cut - from + 1) =~= s@.skip(cut + 1));
        from = cut + 1;
        left = left - 1;
    }
}

/// Joins two texts.
pub fn join(a: &str, b: &str) -> (r: String)
    ensures
        r@ == a@ + b@,
{
    String::from_str(a).concat(b)
}

/// The number that a text of decimal digits stands for; the empty text stands
/// for 0.
pub open spec fn digits_value(s: Seq<char>) -> Option<nat>
    decreases s.len(),
{
    if s.len() == 0 {
        Some(0)
    } else if !(48 <= s.last() as u32 <= 57) {
        None
    } else {
        match digits_value(s.drop_last()) {
            None => None,
            Some(v) => Some(v * 10 + (s.last() as u32 - 48) as nat),
        }
    }
}

/// The 64-bit number that a text stands for: at least one decimal digit,
/// after a `+` or after nothing, of a value that 64 bits hold.
pub open spec fn decimal_u64(s: Seq<char>) -> Option<u64> {
    let digits = if s.len() > 0 && s[0] == '+' {
        s.skip(1)
    } else {
        s
    };
    if digits.len() == 0 {
        None
    } else {
        match digits_value(digits) {
            Some(v) => if v <= u64::MAX {
                Some(v as u64)
            } else {
                None
            },
            None => None,
        }
    }
}

/// What the error of `str::parse::<u64>` says of a text that is no number.
pub uninterp spec fn parse_failure_text(text: Seq<char>) -> Seq<char>;

/// Reads a decimal number with `str::parse::<u64>`. The contract claims what
/// the documentation of `u64::from_str` says: an optional `+`, then decimal
/// digits, at least one, of a value that fits. The message of the error has
/// the name [`parse_failure_text`].
#[verifier::external_body]
pub(crate) fn parse_u64(text: &str) -> (r: Result<u64, String>)
    ensures
        r is Ok <==> decimal_u64(text@) is Some,
        r matches Ok(v) ==> decimal_u64(text@) == Some(v),
        r matches Err(message) ==> message@ == parse_failure_text(text@),
{
    text.parse::<u64>().map_err(|e| e.to_string())
}

/// A text with every occurrence of `from` replaced by `to`, the occurrences
/// taken from the left and not overlapping. `from` is not empty.
pub open spec fn replaced(s: Seq<char>, from: Seq<char>, to: Seq<char>) -> Seq<char>
    decreases s.len(),
{
    if from.len() == 0 || s.len() < from.len() {
        s
    } else if from.is_prefix_of(s) {
        to + replaced(s.skip(from.len() as int), from, to)
    } else {
        seq![s[0]] + replaced(s.skip(1), from, to)
    }
}

/// Replaces every occurrence of a text with `str::replace`. The contract
/// claims what its documentation says: all non-overlapping matches, from the
/// left, are replaced.
#[verifier::external_body]
pub(crate) fn replace_all(text: &str, from: &str, to: &str) -> (r: String)
    requires
        from@.len() > 0,
    ensures
        r@ == replaced(text@, from@, to@),
{
    text.replace(from, to)
}

} // verus!
