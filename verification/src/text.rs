//! Text as sequences of characters: searching, splitting and joining.
//!
//! Every contract of this crate speaks of a string through its view, the
//! sequence of its characters. The helpers here are the few operations on such
//! sequences that the other modules share.

use vstd::prelude::*;

verus! {

/// The least index in `from..end` at which `pred` holds, or `end` where it
/// holds nowhere in that range.
pub open spec fn first_from(pred: spec_fn(int) -> bool, from: int, end: int) -> int
    decreases end - from,
{
    if from >= end {
        end
    } else if pred(from) {
        from
    } else {
        first_from(pred, from + 1, end)
    }
}

/// What `first_from` returns lies in `from..=end`, satisfies `pred` unless it
/// is `end`, and no earlier index of the range satisfies `pred`.
pub proof fn lemma_first_from(pred: spec_fn(int) -> bool, from: int, end: int)
    requires
        from <= end,
    ensures
        from <= first_from(pred, from, end) <= end,
        first_from(pred, from, end) < end ==> pred(first_from(pred, from, end)),
        forall|i: int| from <= i < first_from(pred, from, end) ==> !#[trigger] pred(i),
    decreases end - from,
{
    if from < end && !pred(from) {
        lemma_first_from(pred, from + 1, end);
    }
}

/// An index with nothing before it that satisfies `pred`, and which satisfies
/// `pred` itself unless it is `end`, is what `first_from` returns.
pub proof fn lemma_first_from_is(pred: spec_fn(int) -> bool, from: int, end: int, k: int)
    requires
        from <= k <= end,
        forall|i: int| from <= i < k ==> !#[trigger] pred(i),
        k < end ==> pred(k),
    ensures
        first_from(pred, from, end) == k,
    decreases k - from,
{
    if from < k {
        lemma_first_from_is(pred, from + 1, end, k);
    }
}

/// The test "`text` holds `c` at this index".
pub open spec fn holds_at(text: Seq<char>, c: char) -> spec_fn(int) -> bool {
    |i: int| text[i] == c
}

/// Index of the first `c` in `text` at or after `from`; `text.len()` where
/// there is none.
pub open spec fn index_of_from(text: Seq<char>, c: char, from: int) -> int {
    first_from(holds_at(text, c), from, text.len() as int)
}

/// The pieces of `text` from index `from` on that lie between occurrences of
/// `sep`.
pub open spec fn split_from(text: Seq<char>, sep: char, from: int) -> Seq<Seq<char>>
    decreases text.len() - from,
{
    let at = index_of_from(text, sep, from);
    if from <= at < text.len() {
        seq![text.subrange(from, at)] + split_from(text, sep, at + 1)
    } else {
        seq![text.subrange(from, text.len() as int)]
    }
}

/// The pieces of `text` between occurrences of `sep`. There is always at least
/// one piece, and a piece may be empty.
pub open spec fn split(text: Seq<char>, sep: char) -> Seq<Seq<char>> {
    split_from(text, sep, 0)
}

/// The `parts` in order with `sep` between each two neighbours.
pub open spec fn join(parts: Seq<Seq<char>>, sep: Seq<char>) -> Seq<char>
    decreases parts.len(),
{
    if parts.len() == 0 {
        Seq::empty()
    } else if parts.len() == 1 {
        parts[0]
    } else {
        join(parts.drop_last(), sep) + sep + parts.last()
    }
}

/// The views of a sequence of strings.
pub open spec fn texts(strings: Seq<String>) -> Seq<Seq<char>> {
    strings.map_values(|s: String| s@)
}

/// The characters of a string slice, in order.
pub fn chars_of(s: &str) -> (chars: Vec<char>)
    ensures
        chars@ == s@,
{
    let mut chars: Vec<char> = Vec::new();
    let source = s.chars();
    for c in it: source
        invariant
            chars@ == it.seq().take(it.index() as int),
            it.seq() == s@,
    {
        chars.push(c);
    }
    chars
}

/// Index of the first `c` in `text` at or after `from`.
pub fn find_char(text: &Vec<char>, c: char, from: usize) -> (at: usize)
    requires
        from <= text@.len(),
    ensures
        at == index_of_from(text@, c, from as int),
        from <= at <= text@.len(),
{
    let mut at: usize = from;
    while at < text.len() && text[at] != c
        invariant
            from <= at <= text@.len(),
            forall|i: int| from <= i < at ==> text@[i] != c,
        decreases text@.len() - at,
    {
        at += 1;
    }
    proof {
        lemma_first_from_is(holds_at(text@, c), from as int, text@.len() as int, at as int);
    }
    at
}

/// Whether two string slices hold the same characters.
pub fn same_text(a: &str, b: &str) -> (same: bool)
    ensures
        same == (a@ == b@),
{
    let left = chars_of(a);
    let right = chars_of(b);
    if left.len() != right.len() {
        return false;
    }
    let mut i: usize = 0;
    while i < left.len()
        invariant
            left@ == a@,
            right@ == b@,
            left@.len() == right@.len(),
            i <= left@.len(),
            forall|k: int| 0 <= k < i ==> left@[k] == right@[k],
        decreases left@.len() - i,
    {
        if left[i] != right[i] {
            return false;
        }
        i += 1;
    }
    assert(left@ =~= right@);
    true
}

/// The strings of `parts` in order with `sep` between each two neighbours.
pub fn join_strings(parts: &Vec<String>, sep: &str) -> (joined: String)
    ensures
        joined@ == join(texts(parts@), sep@),
{
    let mut joined = String::new();
    let mut i: usize = 0;
    while i < parts.len()
        invariant
            i <= parts@.len(),
            joined@ == join(texts(parts@).take(i as int), sep@),
        decreases parts@.len() - i,
    {
        if i > 0 {
            joined.append(sep);
        }
        joined.append(parts[i].as_str());
        proof {
            let all = texts(parts@);
            let next = all.take(i + 1);
            assert(next.drop_last() =~= all.take(i as int));
        }
        i += 1;
    }
    assert(texts(parts@).take(parts@.len() as int) =~= texts(parts@));
    joined
}

} // verus!
