//! The argument encoder: from named, possibly absent values and one
//! optional collection argument to a query string.

use crate::error::EncodeFailure;
use crate::json::{fragment, fragment_text};
use crate::percent::{
    is_unreserved, lemma_unreserved_text_unchanged, percent_encode, push_percent_encoded,
};
use crate::text::{decimal, is_digit, lemma_char_code, lemma_decimal_digits, push_decimal};
use vstd::prelude::*;

verus! {

/// The value of a scalar argument.
#[derive(Debug, Clone, PartialEq, Eq)]
pub enum ArgValue {
    Text(String),
    Number(u64),
    Flag(bool),
    /// An optional argument that was not given: it leaves no trace in the
    /// query string.
    Absent,
}

/// A named scalar argument.
#[derive(Debug, Clone, PartialEq, Eq)]
pub struct Argument {
    pub name: String,
    pub value: ArgValue,
}

/// The collection argument of an endpoint: a named list of numeric ids
/// that restricts the result.
#[derive(Debug, Clone, PartialEq, Eq)]
pub struct Filter {
    pub name: String,
    pub ids: Vec<u32>,
}

/// A name with the text of its value, as both stand before encoding.
pub type Pair = (Seq<char>, Seq<char>);

/// The text of a flag.
pub open spec fn flag_text(flag: bool) -> Seq<char> {
    if flag {
        seq!['t', 'r', 'u', 'e']
    } else {
        seq!['f', 'a', 'l', 's', 'e']
    }
}

/// The text of a value before encoding: a text as it stands, a number in
/// decimal, a flag as `true` or `false`; `None` for an absent value.
pub open spec fn value_text(value: ArgValue) -> Option<Seq<char>> {
    match value {
        ArgValue::Text(text) => Some(text@),
        ArgValue::Number(n) => Some(decimal(n as nat)),
        ArgValue::Flag(flag) => Some(flag_text(flag)),
        ArgValue::Absent => None,
    }
}

/// The arguments that are present, in their order, each as a pair.
pub open spec fn present_pairs(args: Seq<Argument>) -> Seq<Pair>
    decreases args.len(),
{
    if args.len() == 0 {
        Seq::empty()
    } else {
        let front = present_pairs(args.drop_last());
        match value_text(args.last().value) {
            Some(text) => front.push((args.last().name@, text)),
            None => front,
        }
    }
}

/// One entry of a query string: `name=value`, the value percent-encoded.
pub open spec fn pair_text(pair: Pair) -> Seq<char> {
    pair.0 + seq!['='] + percent_encode(pair.1)
}

/// The entries of the pairs, joined by `&`.
pub open spec fn join_pairs(pairs: Seq<Pair>) -> Seq<char>
    decreases pairs.len(),
{
    if pairs.len() == 0 {
        Seq::empty()
    } else if pairs.len() == 1 {
        pair_text(pairs[0])
    } else {
        join_pairs(pairs.drop_last()) + seq!['&'] + pair_text(pairs.last())
    }
}

/// The query string of scalar arguments.
pub open spec fn scalar_query(args: Seq<Argument>) -> Seq<char> {
    join_pairs(present_pairs(args))
}

/// The query string of scalar arguments and a collection argument: after
/// the scalars, `&` and the JSON fragment of the collection, unless the
/// collection is empty.
pub open spec fn query_text(args: Seq<Argument>, filter: Filter) -> Seq<char> {
    if filter.ids@.len() == 0 {
        scalar_query(args)
    } else {
        scalar_query(args) + seq!['&'] + fragment_text(filter.name@, filter.ids@)
    }
}

/// Joining one more pair to a query string that holds some adds `&` and
/// the entry of the pair; the `&` stands between its neighbours and is
/// part of neither.
pub proof fn lemma_join_push(front: Seq<Pair>, pair: Pair)
    requires
        front.len() > 0,
    ensures
        join_pairs(front.push(pair)) == join_pairs(front) + (seq!['&'] + pair_text(pair)),
{
    assert(front.push(pair).drop_last() =~= front);
    assert(join_pairs(front) + seq!['&'] + pair_text(pair) =~= join_pairs(front) + (seq!['&']
        + pair_text(pair)));
}

/// Percent-encoding leaves the decimal notation of a number as it is.
pub proof fn lemma_number_unchanged(n: nat)
    ensures
        percent_encode(decimal(n)) == decimal(n),
{
    lemma_decimal_digits(n);
    assert forall|i: int| 0 <= i < decimal(n).len() implies ((#[trigger] decimal(n)[i]) as u32)
        < 128 && is_unreserved(decimal(n)[i] as u8) by {
        assert(is_digit(decimal(n)[i]));
        lemma_char_code(decimal(n)[i]);
    }
    lemma_unreserved_text_unchanged(decimal(n));
}

/// Percent-encoding leaves the text of a flag as it is.
pub proof fn lemma_flag_unchanged(flag: bool)
    ensures
        percent_encode(flag_text(flag)) == flag_text(flag),
{
    lemma_unreserved_text_unchanged(flag_text(flag));
}

/// Appends the text of a flag to `out`.
pub fn push_flag(out: &mut String, flag: bool)
    ensures
        final(out)@ == old(out)@ + flag_text(flag),
{
    if flag {
        out.push('t');
        out.push('r');
        out.push('u');
        out.push('e');
    } else {
        out.push('f');
        out.push('a');
        out.push('l');
        out.push('s');
        out.push('e');
    }
    assert(out@ =~= old(out)@ + flag_text(flag));
}

/// Adds an argument at the end of `args`.
pub fn push_arg(args: &mut Vec<Argument>, name: &str, value: ArgValue)
    ensures
        final(args)@.len() == old(args)@.len() + 1,
        final(args)@.drop_last() == old(args)@,
        final(args)@.last().name@ == name@,
        final(args)@.last().value == value,
        value_text(value) matches Some(text) ==> present_pairs(final(args)@) == present_pairs(
            old(args)@,
        ).push((name@, text)),
        value_text(value) is None ==> present_pairs(final(args)@) == present_pairs(old(args)@),
{
    let arg = Argument { name: name.to_owned(), value };
    args.push(arg);
    assert(args@.drop_last() =~= old(args)@);
}

/// Appends the entry of a present argument to `out`; leaves `out` as it
/// is for an absent one. Says whether it appended.
fn push_argument(out: &mut String, arg: &Argument, first: bool) -> (present: bool)
    ensures
        present == value_text(arg.value) is Some,
        !present ==> final(out)@ == old(out)@,
        present && first ==> final(out)@ == old(out)@ + pair_text(
            (arg.name@, value_text(arg.value)->0),
        ),
        present && !first ==> final(out)@ == old(out)@ + seq!['&'] + pair_text(
            (arg.name@, value_text(arg.value)->0),
        ),
{
    if let ArgValue::Absent = arg.value {
        return false;
    }
    if !first {
        out.push('&');
    }
    let ghost start = out@;
    out.append(arg.name.as_str());
    out.push('=');
    match &arg.value {
        ArgValue::Text(text) => {
            push_percent_encoded(out, text.as_str());
        },
        ArgValue::Number(n) => {
            proof {
                lemma_number_unchanged(*n as nat);
            }
            push_decimal(out, *n);
        },
        ArgValue::Flag(flag) => {
            proof {
                lemma_flag_unchanged(*flag);
            }
            push_flag(out, *flag);
        },
        ArgValue::Absent => {},
    }
    assert(out@ =~= start + pair_text((arg.name@, value_text(arg.value)->0)));
    true
}

/// Encodes the scalar arguments: `name=value` for each present argument,
/// in order, joined by `&`.
pub fn encode_scalars(args: &Vec<Argument>) -> (query: String)
    ensures
        query@ == scalar_query(args@),
{
    let mut out = String::new();
    let mut first = true;
    let mut i: usize = 0;
    assert(args@.take(0) =~= Seq::<Argument>::empty());
    while i < args.len()
        invariant
            i <= args.len(),
            out@ == scalar_query(args@.take(i as int)),
            first == (present_pairs(args@.take(i as int)).len() == 0),
        decreases args.len() - i,
    {
        proof {
            let upto = args@.take(i + 1);
            assert(upto.drop_last() =~= args@.take(i as int));
            assert(upto.last() == args@[i as int]);
        }
        let ghost before = present_pairs(args@.take(i as int));
        let present = push_argument(&mut out, &args[i], first);
        if present {
            proof {
                let after = present_pairs(args@.take(i + 1));
                assert(after.drop_last() =~= before);
            }
            first = false;
        }
        i += 1;
    }
    assert(args@.take(i as int) =~= args@);
    out
}

/// Appends the JSON fragment of a collection argument to encoded
/// scalars. `fragment` is `None` where the fragment could not be built:
/// that is a failure of the whole encoding.
pub fn with_fragment(scalars: String, fragment: Option<String>) -> (r: Result<
    String,
    EncodeFailure,
>)
    ensures
        fragment is None ==> r == Err::<String, EncodeFailure>(EncodeFailure::Serialization),
        fragment matches Some(text) ==> r is Ok && r->Ok_0@ == scalars@ + seq!['&'] + text@,
{
    match fragment {
        Some(text) => {
            let mut out = scalars;
            out.push('&');
            out.append(text.as_str());
            Ok(out)
        },
        None => Err(EncodeFailure::Serialization),
    }
}

/// Encodes scalar arguments and a collection argument into a query
/// string. This succeeds for every input: there is a fragment for every
/// collection, and a collection is never left out.
pub fn encode(args: &Vec<Argument>, filter: &Filter) -> (r: Result<String, EncodeFailure>)
    ensures
        r is Ok,
        r matches Ok(query) ==> query@ == query_text(args@, *filter),
{
    let scalars = encode_scalars(args);
    if filter.ids.len() == 0 {
        Ok(scalars)
    } else {
        with_fragment(scalars, fragment(filter.name.as_str(), &filter.ids))
    }
}

} // verus!
