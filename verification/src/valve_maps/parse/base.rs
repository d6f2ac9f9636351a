//! What every rule of the grammar shares: how a rule reports where it
//! stopped and why, and the trait that the parts of a map implement.

use vstd::prelude::*;
use vstd::string::*;
use vstd::utf8::*;
use crate::valve_maps::parse::text::{
    cut_point, lemma_cut_point_after_ascii, lemma_ends_are_cut_points, length, slice, tail,
};

verus! {

/// The text that is parsed.
pub type Input<'i> = &'i str;

/// The test that the text failed.
#[derive(Debug, Clone, Copy, PartialEq, Eq, Structural)]
pub enum ErrorKind {
    /// A given character was expected.
    Char,
    /// A number was expected.
    Float,
    /// What was read did not have the required shape.
    Verify,
    /// At least one item was expected.
    Many1,
    /// The end of the text was expected.
    Eof,
}

/// Where and why a rule of the grammar did not match, in the model.
pub struct Failure {
    /// The byte offset at which the failing test was made.
    pub at: int,
    pub kind: ErrorKind,
    pub context: Seq<char>,
}

/// What a rule of the grammar says of the text `s` from some offset on:
/// the value it reads with the offset just after it, or why it does not match.
pub type Outcome<T> = Result<(T, int), Failure>;

/// The failure of a bare test at `at`.
pub open spec fn fails(at: int, kind: ErrorKind) -> Failure {
    Failure { at, kind, context: Seq::empty() }
}

/// Where and why a rule did not match, as an offset into the text.
#[derive(Debug, Clone, Copy)]
pub struct Stop {
    pub at: usize,
    pub kind: ErrorKind,
    pub context: &'static str,
}

impl View for Stop {
    type V = Failure;

    open spec fn view(&self) -> Failure {
        Failure { at: self.at as int, kind: self.kind, context: self.context@ }
    }
}

impl Stop {
    /// A stop without context.
    pub fn new(at: usize, kind: ErrorKind) -> (stop: Stop)
        ensures
            stop@ == fails(at as int, kind),
            stop.at == at,
    {
        proof {
            reveal_strlit("");
            assert(""@ =~= Seq::<char>::empty());
        }
        Stop { at, kind, context: "" }
    }
}

/// What an executable rule returns: the value read and the offset after it,
/// or the stop.
pub type Step<T> = Result<(T, usize), Stop>;

/// The executable result `r` is the outcome `o` of the grammar.
pub open spec fn agrees<T: View>(r: Step<T>, o: Outcome<T::V>) -> bool {
    match (r, o) {
        (Ok((value, next)), Ok((model, after))) => value@ == model && next as int == after,
        (Err(stop), Err(failure)) => stop@ == failure,
        _ => false,
    }
}

/// Every offset that `r` mentions is a cut point of `s` at or after `from`.
pub open spec fn in_text<T>(r: Step<T>, s: Seq<u8>, from: int) -> bool {
    match r {
        Ok((_, next)) => cut_point(s, next as int) && from <= next,
        Err(stop) => cut_point(s, stop.at as int) && from <= stop.at,
    }
}

/// The error that parsing reports: the text that was left when the failing
/// test was made, the test, and a note on it.
#[derive(Debug, Clone, Copy, PartialEq, Eq)]
pub struct Error<'i> {
    pub input: Input<'i>,
    pub kind: ErrorKind,
    pub context: &'static str,
}

impl<'i> Error<'i> {
    /// This error says that the text `s` failed as `failure` says.
    pub open spec fn reports(&self, s: Seq<u8>, failure: Failure) -> bool {
        &&& 0 <= failure.at <= s.len()
        &&& self.input.spec_bytes() == tail(s, failure.at)
        &&& self.kind == failure.kind
        &&& self.context@ == failure.context
    }

    /// The error for a stop met in `input`.
    pub fn at_stop(input: Input<'i>, stop: Stop) -> (error: Error<'i>)
        requires
            cut_point(input.spec_bytes(), stop.at as int),
        ensures
            error.reports(input.spec_bytes(), stop@),
    {
        let rest = slice(input, stop.at, length(input));
        Error { input: rest, kind: stop.kind, context: stop.context }
    }
}

/// The result of parsing a value of type `T` at the start of a text: the
/// text left over and the value, or the error.
pub type ParseResult<'i, T> = Result<(Input<'i>, T), Error<'i>>;

/// The result `r` of parsing `input` is the outcome `o` of a rule applied at
/// offset 0.
pub open spec fn parsed_as<'i, T: View>(
    r: ParseResult<'i, T>,
    input: Input<'i>,
    o: Outcome<T::V>,
) -> bool {
    match (r, o) {
        (Ok((rest, value)), Ok((model, after))) => {
            &&& value@ == model
            &&& 0 <= after <= input.spec_bytes().len()
            &&& rest.spec_bytes() == tail(input.spec_bytes(), after)
        },
        (Err(error), Err(failure)) => error.reports(input.spec_bytes(), failure),
        _ => false,
    }
}

/// A part of a map that can be read from text.
pub trait Parse: Sized + View {
    /// The rule of the grammar for this part, applied to `s` at offset `i`.
    spec fn rule(s: Seq<u8>, i: int) -> Outcome<Self::V>;

    /// Reads this part at offset `i` of `input`.
    fn parse_at(input: Input<'_>, i: usize) -> (r: Step<Self>)
        requires
            cut_point(input.spec_bytes(), i as int),
        ensures
            agrees(r, Self::rule(input.spec_bytes(), i as int)),
            in_text(r, input.spec_bytes(), i as int),
    ;

    /// Reads this part at the start of `input`.
    fn parse<'i>(input: Input<'i>) -> (r: ParseResult<'i, Self>)
        ensures
            parsed_as(r, input, Self::rule(input.spec_bytes(), 0)),
    {
        proof {
            lemma_ends_are_cut_points(input);
        }
        finish(input, Self::parse_at(input, 0))
    }
}

/// The models of the items of a sequence.
pub open spec fn views<T: View>(items: Seq<T>) -> Seq<T::V> {
    items.map_values(|item: T| item@)
}

/// The models of a sequence with one more item are the models of the sequence
/// with the model of the item.
pub proof fn lemma_views_push<T: View>(items: Seq<T>, item: T)
    ensures
        views(items.push(item)) == views(items) + seq![item@],
{
    assert(views(items.push(item)) =~= views(items) + seq![item@]);
}

/// The byte `c` stands at offset `i` of `s`.
pub open spec fn stands(s: Seq<u8>, i: int, c: u8) -> bool {
    0 <= i < s.len() && s[i] == c
}

/// Tests whether the ASCII byte `c` stands at offset `i` of `input`.
pub fn byte_is(input: Input<'_>, i: usize, c: u8) -> (found: bool)
    requires
        cut_point(input.spec_bytes(), i as int),
        c < 0x80,
    ensures
        found == stands(input.spec_bytes(), i as int, c),
        found ==> cut_point(input.spec_bytes(), i + 1) && i < usize::MAX,
{
    let bytes = input.as_bytes();
    if i < bytes.len() && bytes[i] == c {
        proof {
            lemma_cut_point_after_ascii(input.spec_bytes(), i as int);
        }
        true
    } else {
        false
    }
}

/// Turns the step made at offset 0 of `input` into the result of parsing it.
pub fn finish<'i, T: View>(input: Input<'i>, step: Step<T>) -> (r: ParseResult<'i, T>)
    requires
        in_text(step, input.spec_bytes(), 0),
    ensures
        forall|o: Outcome<T::V>| agrees(step, o) ==> parsed_as(r, input, o),
{
    match step {
        Ok((value, next)) => Ok((slice(input, next, length(input)), value)),
        Err(stop) => Err(Error::at_stop(input, stop)),
    }
}

} // verus!
