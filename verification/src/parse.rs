//! Reading a query string back: the inverse of encoding scalar
//! arguments.
//!
//! A query string is cut at every `&`; each piece must hold a `=`; what
//! stands before the first `=` is the name, what stands after it is the
//! percent-encoded value.

use crate::percent::{percent_decode, percent_decoded};
use crate::query::Pair;
use crate::text::{chars_of, string_of};
use vstd::prelude::*;

verus! {

/// The position of the last `c` in `text`, `-1` where there is none.
pub open spec fn last_index_of(text: Seq<char>, c: char) -> int
    decreases text.len(),
{
    if text.len() == 0 {
        -1
    } else if text.last() == c {
        text.len() - 1
    } else {
        last_index_of(text.drop_last(), c)
    }
}

/// The position of the first `c` in `text`, `-1` where there is none.
pub open spec fn first_index_of(text: Seq<char>, c: char) -> int
    decreases text.len(),
{
    if text.len() == 0 {
        -1
    } else if text[0] == c {
        0
    } else {
        let rest = first_index_of(text.skip(1), c);
        if rest < 0 {
            -1
        } else {
            rest + 1
        }
    }
}

/// Whether `c` occurs nowhere in `text`.
pub open spec fn free_of(text: Seq<char>, c: char) -> bool {
    forall|i: int| 0 <= i < text.len() ==> #[trigger] text[i] != c
}

/// The pieces between the occurrences of `sep`, in order. A text without
/// `sep` is one piece; two adjacent separators enclose an empty piece.
pub open spec fn split(text: Seq<char>, sep: char) -> Seq<Seq<char>>
    decreases text.len(),
{
    let k = last_index_of(text, sep);
    if 0 <= k < text.len() {
        split(text.take(k), sep).push(text.skip(k + 1))
    } else {
        seq![text]
    }
}

/// The pair that one entry of a query string stands for.
pub open spec fn parse_entry(entry: Seq<char>) -> Option<Pair> {
    let k = first_index_of(entry, '=');
    if 0 <= k < entry.len() {
        match percent_decode(entry.skip(k + 1)) {
            Some(value) => Some((entry.take(k), value)),
            None => None,
        }
    } else {
        None
    }
}

/// The pairs that the entries stand for, `None` if any entry stands for
/// none.
pub open spec fn parse_entries(entries: Seq<Seq<char>>) -> Option<Seq<Pair>>
    decreases entries.len(),
{
    if entries.len() == 0 {
        Some(Seq::empty())
    } else {
        match (parse_entries(entries.drop_last()), parse_entry(entries.last())) {
            (Some(front), Some(pair)) => Some(front.push(pair)),
            _ => None,
        }
    }
}

/// The pairs that a query string stands for. The empty string stands for
/// no pairs.
pub open spec fn parse_query(text: Seq<char>) -> Option<Seq<Pair>> {
    if text.len() == 0 {
        Some(Seq::empty())
    } else {
        parse_entries(split(text, '&'))
    }
}

/// The pairs that parsed entries hold.
pub open spec fn pairs_of(entries: Seq<(String, String)>) -> Seq<Pair> {
    Seq::new(entries.len(), |i: int| (entries[i].0@, entries[i].1@))
}

/// Where `c` stands at `k` and nowhere after, `k` is its last position;
/// where it stands nowhere, there is no last position.
pub proof fn lemma_last_index_of(text: Seq<char>, c: char, k: int)
    requires
        -1 <= k < text.len(),
        k >= 0 ==> text[k] == c,
        forall|i: int| k < i < text.len() ==> #[trigger] text[i] != c,
    ensures
        last_index_of(text, c) == k,
    decreases text.len(),
{
    if text.len() > 0 && k < text.len() - 1 {
        lemma_last_index_of(text.drop_last(), c, k);
    }
}

/// Where `c` stands at `k` and nowhere before, `k` is its first position;
/// where it stands nowhere, there is no first position.
pub proof fn lemma_first_index_of(text: Seq<char>, c: char, k: int)
    requires
        -1 <= k < text.len(),
        k >= 0 ==> text[k] == c,
        forall|i: int| 0 <= i < text.len() && (k < 0 || i < k) ==> #[trigger] text[i] != c,
    ensures
        first_index_of(text, c) == k,
    decreases text.len(),
{
    if text.len() > 0 && k != 0 {
        let rest = text.skip(1);
        let at: int = if k > 0 {
            k - 1
        } else {
            -1
        };
        assert forall|i: int| 0 <= i < rest.len() && (at < 0 || i < at) implies #[trigger] rest[i]
            != c by {
            assert(rest[i] == text[i + 1]);
        }
        lemma_first_index_of(rest, c, at);
    }
}

/// If all entries stand for pairs, so do the first `n` of them.
pub proof fn lemma_parse_entries_prefix(entries: Seq<Seq<char>>, n: int)
    requires
        0 <= n <= entries.len(),
        parse_entries(entries) is Some,
    ensures
        parse_entries(entries.take(n)) is Some,
    decreases entries.len(),
{
    if n < entries.len() {
        assert(entries.drop_last().take(n) =~= entries.take(n));
        lemma_parse_entries_prefix(entries.drop_last(), n);
    } else {
        assert(entries.take(n) =~= entries);
    }
}

/// Cuts `chars` at every `sep`: the bounds of the pieces, in order.
pub fn split_at(chars: &Vec<char>, sep: char) -> (pieces: Vec<(usize, usize)>)
    ensures
        pieces@.len() == split(chars@, sep).len(),
        forall|j: int|
            0 <= j < pieces@.len() ==> (#[trigger] pieces@[j]).0 <= pieces@[j].1 <= chars@.len(),
        forall|j: int|
            0 <= j < pieces@.len() ==> chars@.subrange(
                (#[trigger] pieces@[j]).0 as int,
                pieces@[j].1 as int,
            ) == split(chars@, sep)[j],
{
    let mut pieces: Vec<(usize, usize)> = Vec::new();
    let mut start: usize = 0;
    let mut i: usize = 0;
    let ghost mut done: Seq<Seq<char>> = Seq::empty();
    while i < chars.len()
        invariant
            start <= i <= chars.len(),
            start > 0 ==> chars@[start - 1] == sep && done == split(chars@.take(start - 1), sep),
            start == 0 ==> done.len() == 0,
            forall|j: int| start <= j < i ==> #[trigger] chars@[j] != sep,
            pieces@.len() == done.len(),
            forall|j: int|
                0 <= j < pieces@.len() ==> {
                    &&& (#[trigger] pieces@[j]).0 <= pieces@[j].1 <= chars@.len()
                    &&& chars@.subrange(pieces@[j].0 as int, pieces@[j].1 as int) == done[j]
                },
        decreases chars.len() - i,
    {
        if chars[i] == sep {
            proof {
                let upto = chars@.take(i as int);
                let piece = chars@.subrange(start as int, i as int);
                lemma_last_index_of(upto, sep, start - 1);
                if start > 0 {
                    assert(upto.take(start - 1) =~= chars@.take(start - 1));
                    assert(upto.skip(start as int) =~= piece);
                } else {
                    assert(upto =~= piece);
                    assert(done =~= Seq::<Seq<char>>::empty());
                    assert(seq![upto] =~= done.push(piece));
                }
                assert(split(upto, sep) == done.push(piece));
                done = done.push(piece);
            }
            pieces.push((start, i));
            start = i + 1;
        }
        i += 1;
    }
    proof {
        let piece = chars@.subrange(start as int, i as int);
        lemma_last_index_of(chars@, sep, start - 1);
        if start > 0 {
            assert(chars@.skip(start as int) =~= piece);
        } else {
            assert(chars@ =~= piece);
            assert(done =~= Seq::<Seq<char>>::empty());
            assert(seq![chars@] =~= done.push(piece));
        }
        assert(split(chars@, sep) == done.push(piece));
    }
    pieces.push((start, i));
    pieces
}

/// The position of the first `c` in `chars[from..to]`, counted from
/// `from`; `None` where there is none.
pub fn find_first(chars: &Vec<char>, from: usize, to: usize, c: char) -> (r: Option<usize>)
    requires
        from <= to <= chars.len(),
    ensures
        r matches Some(k) ==> k < to - from && first_index_of(
            chars@.subrange(from as int, to as int),
            c,
        ) == k,
        r is None ==> first_index_of(chars@.subrange(from as int, to as int), c) == -1,
{
    let ghost piece = chars@.subrange(from as int, to as int);
    let mut i: usize = from;
    while i < to
        invariant
            from <= i <= to <= chars.len(),
            piece == chars@.subrange(from as int, to as int),
            forall|j: int| 0 <= j < i - from ==> #[trigger] piece[j] != c,
        decreases to - i,
    {
        if chars[i] == c {
            proof {
                lemma_first_index_of(piece, c, i - from);
            }
            return Some(i - from);
        }
        i += 1;
    }
    proof {
        lemma_first_index_of(piece, c, -1);
    }
    None
}

/// Reads the entry `chars[from..to]`.
pub fn read_entry(chars: &Vec<char>, from: usize, to: usize) -> (r: Option<(String, String)>)
    requires
        from <= to <= chars.len(),
    ensures
        r matches Some(entry) ==> parse_entry(chars@.subrange(from as int, to as int)) == Some(
            (entry.0@, entry.1@),
        ),
        r is None ==> parse_entry(chars@.subrange(from as int, to as int)) is None,
{
    let ghost piece = chars@.subrange(from as int, to as int);
    match find_first(chars, from, to, '=') {
        Some(k) => {
            proof {
                assert(piece.take(k as int) =~= chars@.subrange(from as int, from + k));
                assert(piece.skip(k + 1) =~= chars@.subrange(from + k + 1, to as int));
            }
            let name = string_of(chars, from, from + k);
            match percent_decoded(chars, from + k + 1, to) {
                Some(value) => Some((name, value)),
                None => None,
            }
        },
        None => None,
    }
}

/// Reads a query string back into its names and values, `None` where it
/// is not the encoding of any.
pub fn parse(query: &str) -> (r: Option<Vec<(String, String)>>)
    ensures
        r matches Some(entries) ==> parse_query(query@) == Some(pairs_of(entries@)),
        r is None ==> parse_query(query@) is None,
{
    let chars = chars_of(query);
    let mut entries: Vec<(String, String)> = Vec::new();
    if chars.len() == 0 {
        assert(pairs_of(entries@) =~= Seq::<Pair>::empty());
        return Some(entries);
    }
    let pieces = split_at(&chars, '&');
    let ghost all = split(chars@, '&');
    let mut j: usize = 0;
    assert(all.take(0) =~= Seq::<Seq<char>>::empty());
    assert(pairs_of(entries@) =~= Seq::<Pair>::empty());
    while j < pieces.len()
        invariant
            j <= pieces.len(),
            chars@ == query@,
            chars@.len() > 0,
            all == split(chars@, '&'),
            pieces@.len() == all.len(),
            forall|n: int|
                0 <= n < pieces@.len() ==> {
                    &&& (#[trigger] pieces@[n]).0 <= pieces@[n].1 <= chars@.len()
                    &&& chars@.subrange(pieces@[n].0 as int, pieces@[n].1 as int) == all[n]
                },
            parse_entries(all.take(j as int)) == Some(pairs_of(entries@)),
        decreases pieces.len() - j,
    {
        let bounds = pieces[j];
        proof {
            let upto = all.take(j + 1);
            assert(upto.drop_last() =~= all.take(j as int));
            assert(upto.last() == all[j as int]);
        }
        match read_entry(&chars, bounds.0, bounds.1) {
            Some(entry) => {
                let ghost before = pairs_of(entries@);
                let ghost pair = (entry.0@, entry.1@);
                entries.push(entry);
                assert(pairs_of(entries@) =~= before.push(pair));
            },
            None => {
                proof {
                    if parse_entries(all) is Some {
                        lemma_parse_entries_prefix(all, j + 1);
                    }
                }
                return None;
            },
        }
        j += 1;
    }
    assert(all.take(j as int) =~= all);
    Some(entries)
}

} // verus!
