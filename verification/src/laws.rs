//! What holds of every query string that the encoder produces.

use crate::json::{is_plain, member_text};
use crate::parse::{
    free_of, lemma_first_index_of, lemma_last_index_of, parse_entries, parse_entry, parse_query,
    split,
};
use crate::percent::{is_encoded_char, lemma_encoded_chars, lemma_percent_round_trip, percent_encode};
use crate::query::{
    join_pairs, pair_text, present_pairs, query_text, scalar_query, value_text, Argument, Filter,
    Pair,
};
use vstd::prelude::*;
use vstd::utf8::encode_utf8;

verus! {

/// Whether a name can be told from what surrounds it in a query string: it
/// holds neither `&` nor `=`.
pub open spec fn separable(name: Seq<char>) -> bool {
    free_of(name, '&') && free_of(name, '=')
}

/// The pair of a present argument.
pub open spec fn pair_of(arg: Argument) -> Pair
    recommends
        value_text(arg.value) is Some,
{
    (arg.name@, value_text(arg.value)->0)
}

/// The entries of the pairs, one by one.
pub open spec fn entries_of(pairs: Seq<Pair>) -> Seq<Seq<char>> {
    Seq::new(pairs.len(), |i: int| pair_text(pairs[i]))
}

/// The entry of a pair with a separable name holds no `&`, is not empty,
/// and reads back as the pair.
pub proof fn lemma_entry_round_trip(pair: Pair)
    requires
        separable(pair.0),
    ensures
        parse_entry(pair_text(pair)) == Some(pair),
        free_of(pair_text(pair), '&'),
        pair_text(pair).len() > 0,
{
    let text = pair_text(pair);
    let encoded = percent_encode(pair.1);
    let k = pair.0.len() as int;
    lemma_encoded_chars(encode_utf8(pair.1));
    assert forall|i: int| 0 <= i < text.len() implies #[trigger] text[i] != '&' by {
        if i < k {
            assert(text[i] == pair.0[i]);
        } else if i > k {
            assert(text[i] == encoded[i - k - 1]);
            assert(is_encoded_char(encoded[i - k - 1]));
        }
    }
    assert forall|i: int| 0 <= i < k implies #[trigger] text[i] != '=' by {
        assert(text[i] == pair.0[i]);
    }
    assert(text[k] == '=');
    lemma_first_index_of(text, '=', k);
    assert(text.take(k) =~= pair.0);
    assert(text.skip(k + 1) =~= encoded);
    lemma_percent_round_trip(pair.1);
}

/// Cutting the joined entries of pairs with separable names at `&` gives
/// the entries back.
pub proof fn lemma_split_join(pairs: Seq<Pair>)
    requires
        pairs.len() > 0,
        forall|i: int| 0 <= i < pairs.len() ==> separable(#[trigger] pairs[i].0),
    ensures
        split(join_pairs(pairs), '&') == entries_of(pairs),
        join_pairs(pairs).len() > 0,
    decreases pairs.len(),
{
    let text = join_pairs(pairs);
    let last = pair_text(pairs.last());
    assert(separable(pairs[pairs.len() - 1].0));
    lemma_entry_round_trip(pairs.last());
    if pairs.len() == 1 {
        lemma_last_index_of(text, '&', -1);
        assert(seq![text] =~= entries_of(pairs));
    } else {
        let front_pairs = pairs.drop_last();
        let front = join_pairs(front_pairs);
        let k = front.len() as int;
        assert forall|i: int| 0 <= i < front_pairs.len() implies separable(
            #[trigger] front_pairs[i].0,
        ) by {
            assert(front_pairs[i] == pairs[i]);
        }
        lemma_split_join(front_pairs);
        assert(text[k] == '&');
        assert forall|i: int| k < i < text.len() implies #[trigger] text[i] != '&' by {
            assert(text[i] == last[i - k - 1]);
        }
        lemma_last_index_of(text, '&', k);
        assert(text.take(k) =~= front);
        assert(text.skip(k + 1) =~= last);
        assert(entries_of(front_pairs).push(last) =~= entries_of(pairs));
    }
}

/// The entries of pairs with separable names read back as the pairs.
pub proof fn lemma_parse_entries_of(pairs: Seq<Pair>)
    requires
        forall|i: int| 0 <= i < pairs.len() ==> separable(#[trigger] pairs[i].0),
    ensures
        parse_entries(entries_of(pairs)) == Some(pairs),
    decreases pairs.len(),
{
    if pairs.len() == 0 {
        assert(parse_entries(entries_of(pairs)) == Some(Seq::<Pair>::empty()));
        assert(pairs =~= Seq::<Pair>::empty());
    } else {
        let front_pairs = pairs.drop_last();
        assert forall|i: int| 0 <= i < front_pairs.len() implies separable(
            #[trigger] front_pairs[i].0,
        ) by {
            assert(front_pairs[i] == pairs[i]);
        }
        lemma_parse_entries_of(front_pairs);
        assert(separable(pairs[pairs.len() - 1].0));
        lemma_entry_round_trip(pairs.last());
        assert(entries_of(pairs).drop_last() =~= entries_of(front_pairs));
        assert(entries_of(pairs).last() == pair_text(pairs.last()));
        assert(front_pairs.push(pairs.last()) =~= pairs);
    }
}

/// Joining pairs with separable names into a query string and reading
/// the string back gives the pairs: every name and every value, in order.
pub proof fn lemma_pairs_round_trip(pairs: Seq<Pair>)
    requires
        forall|i: int| 0 <= i < pairs.len() ==> separable(#[trigger] pairs[i].0),
    ensures
        parse_query(join_pairs(pairs)) == Some(pairs),
{
    if pairs.len() == 0 {
        assert(pairs =~= Seq::<Pair>::empty());
    } else {
        lemma_split_join(pairs);
        lemma_parse_entries_of(pairs);
    }
}

/// Every pair of `present_pairs` is the pair of a present argument.
pub proof fn lemma_present_pairs_origin(args: Seq<Argument>, n: int)
    requires
        0 <= n < present_pairs(args).len(),
    ensures
        exists|i: int|
            0 <= i < args.len() && value_text(args[i].value) is Some && present_pairs(args)[n]
                == pair_of(#[trigger] args[i]),
    decreases args.len(),
{
    let front = present_pairs(args.drop_last());
    if n < front.len() {
        lemma_present_pairs_origin(args.drop_last(), n);
        let i = choose|i: int|
            0 <= i < args.drop_last().len() && value_text(args.drop_last()[i].value) is Some
                && front[n] == pair_of(#[trigger] args.drop_last()[i]);
        assert(args.drop_last()[i] == args[i]);
    } else {
        assert(present_pairs(args)[n] == pair_of(args[args.len() - 1]));
    }
}

/// Round trip: encoding scalar arguments and reading the query string back
/// recovers the name and the value text of every present argument, in
/// order, and nothing else. It holds where the names of the present
/// arguments hold neither `&` nor `=`.
pub proof fn lemma_query_round_trip(args: Seq<Argument>)
    requires
        forall|i: int|
            0 <= i < args.len() && value_text(args[i].value) is Some ==> separable(
                (#[trigger] args[i]).name@,
            ),
    ensures
        parse_query(scalar_query(args)) == Some(present_pairs(args)),
{
    let pairs = present_pairs(args);
    assert forall|n: int| 0 <= n < pairs.len() implies separable(#[trigger] pairs[n].0) by {
        lemma_present_pairs_origin(args, n);
    }
    lemma_pairs_round_trip(pairs);
}

/// Encoding loses nothing: two argument lists with the same query string
/// have the same present names and value texts, in the same order. It
/// holds where the names of the present arguments hold neither `&` nor
/// `=`.
pub proof fn lemma_query_injective(a: Seq<Argument>, b: Seq<Argument>)
    requires
        forall|i: int|
            0 <= i < a.len() && value_text(a[i].value) is Some ==> separable(
                (#[trigger] a[i]).name@,
            ),
        forall|i: int|
            0 <= i < b.len() && value_text(b[i].value) is Some ==> separable(
                (#[trigger] b[i]).name@,
            ),
        scalar_query(a) == scalar_query(b),
    ensures
        present_pairs(a) == present_pairs(b),
{
    lemma_query_round_trip(a);
    lemma_query_round_trip(b);
}

/// Where no argument is absent, the pairs that are encoded are the
/// arguments themselves: each exactly once, in the order given.
pub proof fn lemma_all_present(args: Seq<Argument>)
    requires
        forall|i: int| 0 <= i < args.len() ==> value_text((#[trigger] args[i]).value) is Some,
    ensures
        present_pairs(args) == Seq::new(args.len(), |i: int| pair_of(args[i])),
        scalar_query(args) == join_pairs(Seq::new(args.len(), |i: int| pair_of(args[i]))),
    decreases args.len(),
{
    if args.len() == 0 {
        assert(present_pairs(args) =~= Seq::new(args.len(), |i: int| pair_of(args[i])));
    } else {
        let front = args.drop_last();
        assert forall|i: int| 0 <= i < front.len() implies value_text(
            (#[trigger] front[i]).value,
        ) is Some by {
            assert(front[i] == args[i]);
        }
        lemma_all_present(front);
        assert(value_text(args[args.len() - 1].value) is Some);
        assert(present_pairs(args) =~= Seq::new(args.len(), |i: int| pair_of(args[i])));
    }
}

/// An absent argument leaves no trace: the query string is the one of the
/// arguments without it.
pub proof fn lemma_absent_is_omitted(args: Seq<Argument>, i: int)
    requires
        0 <= i < args.len(),
        value_text(args[i].value) is None,
    ensures
        present_pairs(args) == present_pairs(args.remove(i)),
        scalar_query(args) == scalar_query(args.remove(i)),
    decreases args.len(),
{
    if i == args.len() - 1 {
        assert(args.remove(i) =~= args.drop_last());
    } else {
        lemma_absent_is_omitted(args.drop_last(), i);
        assert(args.remove(i).drop_last() =~= args.drop_last().remove(i));
        assert(args.remove(i).last() == args.last());
    }
}

/// An empty collection adds nothing to the query string.
pub proof fn lemma_empty_filter(args: Seq<Argument>, filter: Filter)
    requires
        filter.ids@.len() == 0,
    ensures
        query_text(args, filter) == scalar_query(args),
{
}

/// A non-empty collection under a name that JSON writes as it stands adds
/// `&{"name":[v1,v2,...]}` after the scalar arguments, and nothing after
/// it.
pub proof fn lemma_filter_fragment(args: Seq<Argument>, filter: Filter)
    requires
        filter.ids@.len() > 0,
        is_plain(filter.name@),
    ensures
        query_text(args, filter) == scalar_query(args) + seq!['&'] + member_text(
            filter.name@,
            filter.ids@,
        ),
{
}

} // verus!
