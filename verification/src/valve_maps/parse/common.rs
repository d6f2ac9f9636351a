//! Rules that are not particular to one format.

use vstd::prelude::*;
use vstd::string::*;
use vstd::utf8::*;
use crate::valve_maps::parse::base::{
    agrees, finish, in_text, parsed_as, Error, ErrorKind, Failure, Input, Outcome, Parse,
    ParseResult, Step, Stop,
};
use crate::valve_maps::parse::text::{
    cut_point, lemma_cut_point_after_ascii, lemma_cut_point_at_leading_byte,
    lemma_ends_are_cut_points, slice,
};

verus! {

/// Reads a `T` at the start of `input`.
pub fn parse<'i, T: Parse>(input: Input<'i>) -> (r: ParseResult<'i, T>)
    ensures
        parsed_as(r, input, T::rule(input.spec_bytes(), 0)),
{
    T::parse(input)
}

/// Calls `TryFrom<Vec<O>>` of the array `[O; N]`: the items as an array
/// where there are exactly `N`, and else the items as they came.
#[verifier::external_body]
fn into_array<O, const N: usize>(items: Vec<O>) -> (r: Result<[O; N], Vec<O>>)
    ensures
        match r {
            Ok(array) => array@ == items@,
            Err(back) => back@ == items@ && items@.len() != N,
        },
{
    <[O; N]>::try_from(items)
}

/// Running `parser` again and again from `input` on, each time on what the
/// run before has left, gives `items`, and leaves the texts `rests` in turn.
pub open spec fn runs<'i, O, F: Fn(Input<'i>) -> ParseResult<'i, O>>(
    parser: F,
    input: Input<'i>,
    rests: Seq<Input<'i>>,
    items: Seq<O>,
) -> bool {
    &&& rests.len() == items.len() + 1
    &&& rests[0] == input
    &&& forall|k: int|
        0 <= k < items.len() ==> call_ensures(
            parser,
            (#[trigger] rests[k],),
            Ok::<(Input<'i>, O), Error<'i>>((rests[k + 1], items[k])),
        )
}

/// `parser` may fail on `at`.
pub open spec fn stops<'i, O, F: Fn(Input<'i>) -> ParseResult<'i, O>>(
    parser: F,
    at: Input<'i>,
) -> bool {
    exists|error: Error<'i>|
        #[trigger] call_ensures(parser, (at,), Err::<(Input<'i>, O), Error<'i>>(error))
}

/// Running `parser` again and again from `input` on gives `items` and
/// leaves `rest`, on which it may fail.
pub open spec fn runs_out<'i, O, F: Fn(Input<'i>) -> ParseResult<'i, O>>(
    parser: F,
    input: Input<'i>,
    items: Seq<O>,
    rest: Input<'i>,
) -> bool {
    exists|rests: Seq<Input<'i>>|
        #[trigger] runs(parser, input, rests, items) && rests.last() == rest && stops(parser, rest)
}

/// Runs `parser` from `input` on as often as it succeeds, and gives the
/// items if they are exactly `N`. `parser` must take every text, and leave
/// less than it was given when it succeeds.
pub fn many_fixed<'i, const N: usize, O, F: Fn(Input<'i>) -> ParseResult<'i, O>>(
    parser: &F,
    input: Input<'i>,
) -> (r: ParseResult<'i, [O; N]>)
    requires
        forall|text: Input<'i>| call_requires(*parser, (text,)),
        forall|text: Input<'i>, rest: Input<'i>, item: O|
            #[trigger] call_ensures(
                *parser,
                (text,),
                Ok::<(Input<'i>, O), Error<'i>>((rest, item)),
            ) ==> rest.spec_bytes().len() < text.spec_bytes().len(),
    ensures
        match r {
            Ok((rest, array)) => runs_out(*parser, input, array@, rest),
            Err(error) => {
                &&& error.input == input
                &&& error.kind == ErrorKind::Verify
                &&& error.context@ == ""@
                &&& exists|items: Seq<O>, rest: Input<'i>|
                    #[trigger] runs_out(*parser, input, items, rest) && items.len() != N
            },
        },
{
    let mut items: Vec<O> = Vec::new();
    let mut at = input;
    let ghost mut rests: Seq<Input<'i>> = seq![input];
    loop
        invariant
            forall|text: Input<'i>| call_requires(*parser, (text,)),
            forall|text: Input<'i>, rest: Input<'i>, item: O|
                #[trigger] call_ensures(
                    *parser,
                    (text,),
                    Ok::<(Input<'i>, O), Error<'i>>((rest, item)),
                ) ==> rest.spec_bytes().len() < text.spec_bytes().len(),
            runs(*parser, input, rests, items@),
            rests.last() == at,
        decreases at.spec_bytes().len(),
    {
        let outcome = parser(at);
        proof {
            assert(call_ensures(*parser, (at,), outcome));
        }
        match outcome {
            Ok((rest, item)) => {
                proof {
                    let before = rests;
                    let found = items@;
                    rests = rests.push(rest);
                    assert forall|k: int| 0 <= k < found.len() + 1 implies call_ensures(
                        *parser,
                        (#[trigger] rests[k],),
                        Ok::<(Input<'i>, O), Error<'i>>((rests[k + 1], found.push(item)[k])),
                    ) by {
                        if k < found.len() {
                            assert(rests[k] == before[k]);
                            assert(rests[k + 1] == before[k + 1]);
                        }
                    }
                }
                items.push(item);
                at = rest;
            },
            Err(error) => {
                let ghost found = items@;
                proof {
                    assert(call_ensures(
                        *parser,
                        (at,),
                        Err::<(Input<'i>, O), Error<'i>>(error),
                    ));
                    assert(stops(*parser, at));
                }
                match into_array::<O, N>(items) {
                    Ok(array) => {
                        proof {
                            assert(runs(*parser, input, rests, array@));
                            assert(runs_out(*parser, input, array@, at));
                        }
                        return Ok((at, array));
                    },
                    Err(_) => {
                        proof {
                            assert(runs(*parser, input, rests, found));
                            assert(runs_out(*parser, input, found, at));
                        }
                        return Err(Error { input, kind: ErrorKind::Verify, context: "" });
                    },
                }
            },
        }
    }
}

/// The byte at `j` is a double quote that ends a string whose content starts
/// at `start`: one that no backslash stands directly before.
pub open spec fn closes_quote(s: Seq<u8>, start: int, j: int) -> bool {
    s[j] == 0x22 && (j == start || s[j - 1] != 0x5c)
}

/// The offset of the first closing quote at or after `j`, or the length of
/// `s` where there is none.
pub open spec fn quote_stop(s: Seq<u8>, start: int, j: int) -> int
    decreases s.len() - j,
{
    if j < start || j >= s.len() {
        s.len() as int
    } else if closes_quote(s, start, j) {
        j
    } else {
        quote_stop(s, start, j + 1)
    }
}

/// The rule for a quoted string at `i`: a double quote, the content, and the
/// first double quote that no backslash stands directly before. The value is
/// the content, as it stands in the text.
pub open spec fn quoted_string_at(s: Seq<u8>, i: int) -> Outcome<Seq<char>> {
    if !(0 <= i < s.len() && s[i] == 0x22) {
        Err(Failure { at: i, kind: ErrorKind::Verify, context: "no opening quote"@ })
    } else {
        let j = quote_stop(s, i + 1, i + 1);
        if j < s.len() {
            Ok((decode_utf8(s.subrange(i + 1, j)), j + 1))
        } else {
            Err(Failure { at: i, kind: ErrorKind::Verify, context: "no closing quote"@ })
        }
    }
}

/// `quote_stop` is the first closing quote: none lies before it.
pub proof fn lemma_quote_stop_is_first(s: Seq<u8>, start: int, j: int)
    requires
        0 <= start <= j <= s.len(),
    ensures
        j <= quote_stop(s, start, j) <= s.len(),
        quote_stop(s, start, j) < s.len() ==> closes_quote(s, start, quote_stop(s, start, j)),
        forall|k: int| j <= k < quote_stop(s, start, j) ==> !closes_quote(s, start, k),
    decreases s.len() - j,
{
    if j < s.len() && !closes_quote(s, start, j) {
        lemma_quote_stop_is_first(s, start, j + 1);
    }
}

/// Reads a quoted string at offset `i` of `input`.
pub fn quoted_string_from<'i>(input: Input<'i>, i: usize) -> (r: Step<&'i str>)
    requires
        cut_point(input.spec_bytes(), i as int),
    ensures
        agrees(r, quoted_string_at(input.spec_bytes(), i as int)),
        in_text(r, input.spec_bytes(), i as int),
        r is Ok ==> r.unwrap().1 > i,
{
    let bytes = input.as_bytes();
    let n = bytes.len();
    let ghost s = input.spec_bytes();
    if i >= n || bytes[i] != 0x22 {
        return Err(Stop { at: i, kind: ErrorKind::Verify, context: "no opening quote" });
    }
    proof {
        lemma_cut_point_after_ascii(s, i as int);
    }
    let start = i + 1;
    let mut j = start;
    let mut escaped = false;
    while j < n && (bytes[j] != 0x22 || escaped)
        invariant
            start <= j <= n,
            n == s.len(),
            bytes@ == s,
            escaped <==> (j > start && s[j - 1] == 0x5c),
            quote_stop(s, start as int, j as int) == quote_stop(s, start as int, start as int),
        decreases n - j,
    {
        escaped = bytes[j] == 0x5c;
        j += 1;
    }
    if j < n {
        proof {
            lemma_cut_point_at_leading_byte(s, j as int);
            lemma_cut_point_after_ascii(s, j as int);
        }
        Ok((slice(input, start, j), j + 1))
    } else {
        Err(Stop { at: i, kind: ErrorKind::Verify, context: "no closing quote" })
    }
}

/// Reads a quoted string at the start of `input`: what is left of the text,
/// and the content between the quotes.
pub fn quoted_string<'i>(input: Input<'i>) -> (r: ParseResult<'i, &'i str>)
    ensures
        parsed_as(r, input, quoted_string_at(input.spec_bytes(), 0)),
{
    proof {
        lemma_ends_are_cut_points(input);
    }
    finish(input, quoted_string_from(input, 0))
}

} // verus!
