//! The parts that are particular to the Valve-220 format: numbers, vectors
//! and the alignment of a texture on a plane.

use vstd::prelude::*;
use vstd::string::*;
use vstd::utf8::*;
use crate::valve_maps::parse::base::{
    byte_is, fails, stands, ErrorKind, Input, Outcome, Parse, Step, Stop,
};
use crate::valve_maps::parse::formats::shared::{separator, separator_end};
use crate::valve_maps::parse::text::{lemma_valid_tail_is_cut_point, length, slice, tail};

verus! {

/// The number of bytes at the start of the text `s` that nom's `float`
/// reads as one number, where it reads one.
pub uninterp spec fn float_len(s: Seq<u8>) -> Option<nat>;

/// Calls `nom::number::complete::float` under `nom::combinator::recognize`
/// on `input`. Where `float` reads a number, the result is what is left of
/// the text and the part that was read, which together are `input`; where it
/// does not, the result is `None`. Which part is read depends on `input`
/// alone.
#[verifier::external_body]
fn recognize_float<'i>(input: &'i str) -> (r: Option<(&'i str, &'i str)>)
    ensures
        match r {
            Some((rest, number)) => {
                &&& float_len(input.spec_bytes()) == Some(number.spec_bytes().len())
                &&& number.spec_bytes() + rest.spec_bytes() == input.spec_bytes()
            },
            None => float_len(input.spec_bytes()).is_none(),
        },
{
    let read: nom::IResult<&str, &str, (&str, nom::error::ErrorKind)> =
        nom::combinator::recognize(nom::number::complete::float)(input);
    match read {
        Ok((rest, number)) => Some((rest, number)),
        Err(_) => None,
    }
}

/// A number, kept as it is written in the text.
#[derive(Debug, Clone, PartialEq, Eq)]
pub struct Number {
    pub text: String,
}

impl View for Number {
    type V = Seq<char>;

    open spec fn view(&self) -> Seq<char> {
        self.text@
    }
}

/// The rule for a number at `i`.
pub open spec fn number_at(s: Seq<u8>, i: int) -> Outcome<Seq<char>> {
    if 0 <= i <= s.len() {
        match float_len(tail(s, i)) {
            Some(n) => Ok((decode_utf8(s.subrange(i, i + n)), i + n)),
            None => Err(fails(i, ErrorKind::Float)),
        }
    } else {
        Err(fails(i, ErrorKind::Float))
    }
}

/// The step that the rule for a number makes at offset `i`, given what was
/// recognized in the text from `i` on: what is left and the number's text.
pub fn number_step(i: usize, recognized: Option<(&str, &str)>) -> (r: Step<Number>)
    requires
        recognized matches Some((_, number)) ==> i + number.spec_bytes().len() <= usize::MAX,
    ensures
        match recognized {
            Some((_, number)) => r matches Ok((value, next)) && value@ == number@ && next == i
                + number.spec_bytes().len(),
            None => r matches Err(stop) && stop@ == fails(i as int, ErrorKind::Float),
        },
{
    match recognized {
        Some((_, number)) => Ok((Number { text: number.to_owned() }, i + length(number))),
        None => Err(Stop::new(i, ErrorKind::Float)),
    }
}

impl Parse for Number {
    open spec fn rule(s: Seq<u8>, i: int) -> Outcome<Seq<char>> {
        number_at(s, i)
    }

    fn parse_at(input: Input<'_>, i: usize) -> (r: Step<Self>) {
        proof {
            assert(Self::rule(input.spec_bytes(), i as int) == number_at(input.spec_bytes(), i as int));
        }
        broadcast use encode_utf8_valid_utf8, encode_utf8_decode_utf8;
        let ghost s = input.spec_bytes();
        let from = slice(input, i, length(input));
        let recognized = recognize_float(from);
        proof {
            assert(from.spec_bytes() == tail(s, i as int));
            match recognized {
                Some((rest, number)) => {
                    let n = number.spec_bytes().len() as int;
                    assert(number.spec_bytes() + rest.spec_bytes() == tail(s, i as int));
                    assert((number.spec_bytes() + rest.spec_bytes()).len() == s.len() - i);
                    let both = number.spec_bytes() + rest.spec_bytes();
                    assert(number.spec_bytes() =~= both.subrange(0, n));
                    assert(rest.spec_bytes() =~= both.subrange(n, both.len() as int));
                    assert(number.spec_bytes() =~= s.subrange(i as int, i + n));
                    assert(rest.spec_bytes() =~= tail(s, i + n));
                    lemma_valid_tail_is_cut_point(s, i + n);
                },
                None => {},
            }
        }
        number_step(i, recognized)
    }
}

/// A pair of numbers.
#[derive(Debug, Clone, PartialEq, Eq)]
pub struct Vec2 {
    pub x: Number,
    pub y: Number,
}

/// A pair of numbers as the grammar gives it: each number is its text.
pub struct Vec2View {
    pub x: Seq<char>,
    pub y: Seq<char>,
}

impl View for Vec2 {
    type V = Vec2View;

    open spec fn view(&self) -> Vec2View {
        Vec2View { x: self.x@, y: self.y@ }
    }
}

/// The rule for a pair of numbers at `i`: two numbers with a separator
/// between them, which may be empty.
pub open spec fn vec2_at(s: Seq<u8>, i: int) -> Outcome<Vec2View> {
    match number_at(s, i) {
        Err(e) => Err(e),
        Ok((x, j)) => match number_at(s, separator_end(s, j)) {
            Err(e) => Err(e),
            Ok((y, k)) => Ok((Vec2View { x, y }, k)),
        },
    }
}

impl Parse for Vec2 {
    open spec fn rule(s: Seq<u8>, i: int) -> Outcome<Vec2View> {
        vec2_at(s, i)
    }

    fn parse_at(input: Input<'_>, i: usize) -> (r: Step<Self>) {
        proof {
            assert(Self::rule(input.spec_bytes(), i as int) == vec2_at(input.spec_bytes(), i as int));
        }
        let (x, j) = match Number::parse_at(input, i) {
            Ok(read) => read,
            Err(stop) => return Err(stop),
        };
        let j = separator(input, j);
        let (y, k) = match Number::parse_at(input, j) {
            Ok(read) => read,
            Err(stop) => return Err(stop),
        };
        Ok((Vec2 { x, y }, k))
    }
}

/// Three numbers: a point or a direction.
#[derive(Debug, Clone, PartialEq, Eq)]
pub struct Triple {
    pub x: Number,
    pub y: Number,
    pub z: Number,
}

/// Three numbers as the grammar gives them: each number is its text.
pub struct TripleView {
    pub x: Seq<char>,
    pub y: Seq<char>,
    pub z: Seq<char>,
}

impl View for Triple {
    type V = TripleView;

    open spec fn view(&self) -> TripleView {
        TripleView { x: self.x@, y: self.y@, z: self.z@ }
    }
}

/// The rule for three numbers at `i`, separated like a pair.
pub open spec fn triple_at(s: Seq<u8>, i: int) -> Outcome<TripleView> {
    match number_at(s, i) {
        Err(e) => Err(e),
        Ok((x, j)) => match number_at(s, separator_end(s, j)) {
            Err(e) => Err(e),
            Ok((y, k)) => match number_at(s, separator_end(s, k)) {
                Err(e) => Err(e),
                Ok((z, m)) => Ok((TripleView { x, y, z }, m)),
            },
        },
    }
}

impl Parse for Triple {
    open spec fn rule(s: Seq<u8>, i: int) -> Outcome<TripleView> {
        triple_at(s, i)
    }

    fn parse_at(input: Input<'_>, i: usize) -> (r: Step<Self>) {
        proof {
            assert(Self::rule(input.spec_bytes(), i as int) == triple_at(input.spec_bytes(), i as int));
        }
        let (x, j) = match Number::parse_at(input, i) {
            Ok(read) => read,
            Err(stop) => return Err(stop),
        };
        let j = separator(input, j);
        let (y, k) = match Number::parse_at(input, j) {
            Ok(read) => read,
            Err(stop) => return Err(stop),
        };
        let k = separator(input, k);
        let (z, m) = match Number::parse_at(input, k) {
            Ok(read) => read,
            Err(stop) => return Err(stop),
        };
        Ok((Triple { x, y, z }, m))
    }
}

/// The Valve-220 format.
#[derive(Debug, Clone, Copy, PartialEq, Eq, Default)]
pub struct Valve;

/// One axis of a texture: its direction and the offset along it.
#[derive(Debug, Clone, PartialEq, Eq)]
pub struct Axis {
    pub normal: Triple,
    pub offset: Number,
}

/// An axis as the grammar gives it.
pub struct AxisView {
    pub normal: TripleView,
    pub offset: Seq<char>,
}

impl View for Axis {
    type V = AxisView;

    open spec fn view(&self) -> AxisView {
        AxisView { normal: self.normal@, offset: self.offset@ }
    }
}

/// The rule for an axis at `i`: `[`, three numbers, one number, `]`, with
/// separators between them.
pub open spec fn axis_at(s: Seq<u8>, i: int) -> Outcome<AxisView> {
    if !stands(s, i, 0x5b) {
        Err(fails(i, ErrorKind::Char))
    } else {
        match triple_at(s, separator_end(s, i + 1)) {
            Err(e) => Err(e),
            Ok((normal, j)) => match number_at(s, separator_end(s, j)) {
                Err(e) => Err(e),
                Ok((offset, k)) => {
                    let close = separator_end(s, k);
                    if stands(s, close, 0x5d) {
                        Ok((AxisView { normal, offset }, close + 1))
                    } else {
                        Err(fails(close, ErrorKind::Char))
                    }
                },
            },
        }
    }
}

impl Parse for Axis {
    open spec fn rule(s: Seq<u8>, i: int) -> Outcome<AxisView> {
        axis_at(s, i)
    }

    fn parse_at(input: Input<'_>, i: usize) -> (r: Step<Self>) {
        proof {
            assert(Self::rule(input.spec_bytes(), i as int) == axis_at(input.spec_bytes(), i as int));
        }
        if !byte_is(input, i, 0x5b) {
            return Err(Stop::new(i, ErrorKind::Char));
        }
        let start = separator(input, i + 1);
        let (normal, j) = match Triple::parse_at(input, start) {
            Ok(read) => read,
            Err(stop) => return Err(stop),
        };
        let j = separator(input, j);
        let (offset, k) = match Number::parse_at(input, j) {
            Ok(read) => read,
            Err(stop) => return Err(stop),
        };
        let close = separator(input, k);
        if byte_is(input, close, 0x5d) {
            Ok((Axis { normal, offset }, close + 1))
        } else {
            Err(Stop::new(close, ErrorKind::Char))
        }
    }
}

/// The two axes of a texture.
#[derive(Debug, Clone, PartialEq, Eq)]
pub struct Axes {
    pub u: Axis,
    pub v: Axis,
}

/// The two axes as the grammar gives them.
pub struct AxesView {
    pub u: AxisView,
    pub v: AxisView,
}

impl View for Axes {
    type V = AxesView;

    open spec fn view(&self) -> AxesView {
        AxesView { u: self.u@, v: self.v@ }
    }
}

/// The rule for the two axes at `i`.
pub open spec fn axes_at(s: Seq<u8>, i: int) -> Outcome<AxesView> {
    match axis_at(s, i) {
        Err(e) => Err(e),
        Ok((u, j)) => match axis_at(s, separator_end(s, j)) {
            Err(e) => Err(e),
            Ok((v, k)) => Ok((AxesView { u, v }, k)),
        },
    }
}

impl Parse for Axes {
    open spec fn rule(s: Seq<u8>, i: int) -> Outcome<AxesView> {
        axes_at(s, i)
    }

    fn parse_at(input: Input<'_>, i: usize) -> (r: Step<Self>) {
        proof {
            assert(Self::rule(input.spec_bytes(), i as int) == axes_at(input.spec_bytes(), i as int));
        }
        let (u, j) = match Axis::parse_at(input, i) {
            Ok(read) => read,
            Err(stop) => return Err(stop),
        };
        let j = separator(input, j);
        let (v, k) = match Axis::parse_at(input, j) {
            Ok(read) => read,
            Err(stop) => return Err(stop),
        };
        Ok((Axes { u, v }, k))
    }
}

/// The scale of a texture along its two axes.
#[derive(Debug, Clone, PartialEq, Eq)]
pub struct Scale {
    pub u: Number,
    pub v: Number,
}

/// A scale as the grammar gives it.
pub struct ScaleView {
    pub u: Seq<char>,
    pub v: Seq<char>,
}

impl View for Scale {
    type V = ScaleView;

    open spec fn view(&self) -> ScaleView {
        ScaleView { u: self.u@, v: self.v@ }
    }
}

/// The rule for a scale at `i`: a pair of numbers.
pub open spec fn scale_at(s: Seq<u8>, i: int) -> Outcome<ScaleView> {
    match vec2_at(s, i) {
        Err(e) => Err(e),
        Ok((pair, j)) => Ok((ScaleView { u: pair.x, v: pair.y }, j)),
    }
}

impl Parse for Scale {
    open spec fn rule(s: Seq<u8>, i: int) -> Outcome<ScaleView> {
        scale_at(s, i)
    }

    fn parse_at(input: Input<'_>, i: usize) -> (r: Step<Self>) {
        proof {
            assert(Self::rule(input.spec_bytes(), i as int) == scale_at(input.spec_bytes(), i as int));
        }
        match Vec2::parse_at(input, i) {
            Ok((pair, j)) => Ok((Scale { u: pair.x, v: pair.y }, j)),
            Err(stop) => Err(stop),
        }
    }
}

/// How a texture lies on a plane: its axes, its rotation and its scale.
#[derive(Debug, Clone, PartialEq, Eq)]
pub struct TextureAlignment {
    pub axes: Axes,
    pub rotation: Number,
    pub scale: Scale,
}

/// An alignment as the grammar gives it.
pub struct TextureAlignmentView {
    pub axes: AxesView,
    pub rotation: Seq<char>,
    pub scale: ScaleView,
}

impl View for TextureAlignment {
    type V = TextureAlignmentView;

    open spec fn view(&self) -> TextureAlignmentView {
        TextureAlignmentView { axes: self.axes@, rotation: self.rotation@, scale: self.scale@ }
    }
}

/// The rule for an alignment at `i`: the axes, the rotation and the scale.
pub open spec fn alignment_at(s: Seq<u8>, i: int) -> Outcome<TextureAlignmentView> {
    match axes_at(s, i) {
        Err(e) => Err(e),
        Ok((axes, j)) => match number_at(s, separator_end(s, j)) {
            Err(e) => Err(e),
            Ok((rotation, k)) => match scale_at(s, separator_end(s, k)) {
                Err(e) => Err(e),
                Ok((scale, m)) => Ok((TextureAlignmentView { axes, rotation, scale }, m)),
            },
        },
    }
}

impl Parse for TextureAlignment {
    open spec fn rule(s: Seq<u8>, i: int) -> Outcome<TextureAlignmentView> {
        alignment_at(s, i)
    }

    fn parse_at(input: Input<'_>, i: usize) -> (r: Step<Self>) {
        proof {
            assert(Self::rule(input.spec_bytes(), i as int) == alignment_at(input.spec_bytes(), i as int));
        }
        let (axes, j) = match Axes::parse_at(input, i) {
            Ok(read) => read,
            Err(stop) => return Err(stop),
        };
        let j = separator(input, j);
        let (rotation, k) = match Number::parse_at(input, j) {
            Ok(read) => read,
            Err(stop) => return Err(stop),
        };
        let k = separator(input, k);
        let (scale, m) = match Scale::parse_at(input, k) {
            Ok(read) => read,
            Err(stop) => return Err(stop),
        };
        Ok((TextureAlignment { axes, rotation, scale }, m))
    }
}

} // verus!
