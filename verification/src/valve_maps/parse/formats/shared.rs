//! The parts that every map format has: separators, key/value fields,
//! entities, brushes and planes.

use vstd::prelude::*;
use vstd::string::*;
use vstd::utf8::*;
use crate::valve_maps::parse::base::{
    agrees, byte_is, fails, in_text, lemma_views_push, stands, views, ErrorKind, Input, Outcome,
    Parse, Step, Stop,
};
use crate::valve_maps::parse::common::{quoted_string_at, quoted_string_from};
use crate::valve_maps::parse::formats::fields::{Entry, Fields};
use crate::valve_maps::parse::formats::valve::{
    alignment_at, triple_at, TextureAlignment, TextureAlignmentView, Triple, TripleView,
};
use crate::valve_maps::parse::text::{
    cut_point, lemma_cut_point_after_ascii, lemma_cut_point_at_leading_byte,
    lemma_ends_are_cut_points, slice,
};

verus! {

/// A space, a tab, a carriage return or a line feed.
pub open spec fn is_blank(b: u8) -> bool {
    b == 0x20 || b == 0x09 || b == 0x0d || b == 0x0a
}

/// A carriage return or a line feed.
pub open spec fn is_line_break(b: u8) -> bool {
    b == 0x0d || b == 0x0a
}

/// The offset of the first line break at or after `i`, or the length of `s`
/// where there is none.
pub open spec fn line_stop(s: Seq<u8>, i: int) -> int
    decreases s.len() - i,
{
    if i < 0 || i >= s.len() {
        s.len() as int
    } else if is_line_break(s[i]) {
        i
    } else {
        line_stop(s, i + 1)
    }
}

/// A comment starts at `i` and ends with its line: the offset after the line
/// ending. A comment is `//`, then anything but line breaks, then a line
/// feed or a carriage return directly followed by a line feed. A comment that
/// the end of the text or a lone carriage return cuts short is none.
pub open spec fn comment_end(s: Seq<u8>, i: int) -> Option<int> {
    if 0 <= i && i + 1 < s.len() && s[i] == 0x2f && s[i + 1] == 0x2f {
        let j = line_stop(s, i + 2);
        if j < s.len() && s[j] == 0x0a {
            Some(j + 1)
        } else if j + 1 < s.len() && s[j] == 0x0d && s[j + 1] == 0x0a {
            Some(j + 2)
        } else {
            None
        }
    } else {
        None
    }
}

/// The offset after the separator that starts at `i`: the longest run of
/// blanks and comments. The run may be empty.
pub open spec fn separator_end(s: Seq<u8>, i: int) -> int
    decreases s.len() - i,
{
    if 0 <= i < s.len() && is_blank(s[i]) {
        separator_end(s, i + 1)
    } else {
        match comment_end(s, i) {
            Some(j) => if i < j <= s.len() {
                separator_end(s, j)
            } else {
                i
            },
            None => i,
        }
    }
}

/// `line_stop` is the first line break: none lies before it.
pub proof fn lemma_line_stop_bounds(s: Seq<u8>, i: int)
    requires
        0 <= i <= s.len(),
    ensures
        i <= line_stop(s, i) <= s.len(),
        line_stop(s, i) < s.len() ==> is_line_break(s[line_stop(s, i)]),
        forall|k: int| i <= k < line_stop(s, i) ==> !is_line_break(#[trigger] s[k]),
    decreases s.len() - i,
{
    if i < s.len() && !is_line_break(s[i]) {
        lemma_line_stop_bounds(s, i + 1);
    }
}

/// Skipping a separator twice is skipping it once.
pub proof fn lemma_separator_end_idempotent(s: Seq<u8>, i: int)
    requires
        0 <= i <= s.len(),
    ensures
        separator_end(s, separator_end(s, i)) == separator_end(s, i),
    decreases s.len() - i,
{
    if i < s.len() && is_blank(s[i]) {
        lemma_separator_end_idempotent(s, i + 1);
    } else {
        match comment_end(s, i) {
            Some(j) => {
                if i < j <= s.len() {
                    lemma_separator_end_idempotent(s, j);
                }
            },
            None => {},
        }
    }
}

/// The offset after the comment that starts at `i`, if one does.
pub(crate) fn comment(input: &str, i: usize) -> (end: Option<usize>)
    requires
        cut_point(input.spec_bytes(), i as int),
    ensures
        match end {
            Some(j) => comment_end(input.spec_bytes(), i as int) == Some(j as int),
            None => comment_end(input.spec_bytes(), i as int).is_none(),
        },
        end matches Some(j) ==> i < j && cut_point(input.spec_bytes(), j as int),
{
    let bytes = input.as_bytes();
    let n = bytes.len();
    let ghost s = input.spec_bytes();
    if n - i < 2 || bytes[i] != 0x2f || bytes[i + 1] != 0x2f {
        return None;
    }
    let mut j = i + 2;
    proof {
        lemma_line_stop_bounds(s, i + 2);
    }
    while j < n && bytes[j] != 0x0d && bytes[j] != 0x0a
        invariant
            i + 2 <= j <= n,
            n == s.len(),
            bytes@ == s,
            line_stop(s, j as int) == line_stop(s, i + 2),
        decreases n - j,
    {
        j += 1;
    }
    if j < n && bytes[j] == 0x0a {
        proof {
            lemma_cut_point_at_leading_byte(s, j as int);
            lemma_cut_point_after_ascii(s, j as int);
        }
        Some(j + 1)
    } else if j < n - 1 && bytes[j] == 0x0d && bytes[j + 1] == 0x0a {
        proof {
            lemma_cut_point_at_leading_byte(s, j + 1);
            lemma_cut_point_after_ascii(s, j + 1);
        }
        Some(j + 2)
    } else {
        None
    }
}

/// The offset after the separator that starts at `i`.
pub(crate) fn separator(input: &str, i: usize) -> (end: usize)
    requires
        cut_point(input.spec_bytes(), i as int),
    ensures
        end == separator_end(input.spec_bytes(), i as int),
        i <= end <= input.spec_bytes().len(),
        cut_point(input.spec_bytes(), end as int),
{
    let bytes = input.as_bytes();
    let n = bytes.len();
    let ghost s = input.spec_bytes();
    let mut j = i;
    loop
        invariant
            i <= j <= n,
            n == s.len(),
            bytes@ == s,
            s == input.spec_bytes(),
            cut_point(s, j as int),
            separator_end(s, j as int) == separator_end(s, i as int),
        decreases n - j,
    {
        if j < n && (bytes[j] == 0x20 || bytes[j] == 0x09 || bytes[j] == 0x0d || bytes[j] == 0x0a) {
            proof {
                lemma_cut_point_after_ascii(s, j as int);
            }
            j += 1;
        } else {
            match comment(input, j) {
                Some(k) => {
                    j = k;
                },
                None => {
                    return j;
                },
            }
        }
    }
}

/// A white-space character of Unicode starts at `i`: U+0009 to U+000D,
/// U+0020, U+0085, U+00A0, U+1680, U+2000 to U+200A, U+2028, U+2029, U+202F,
/// U+205F or U+3000, in UTF-8.
pub open spec fn whitespace_at(s: Seq<u8>, i: int) -> bool {
    &&& 0 <= i < s.len()
    &&& {
        ||| 0x09 <= s[i] <= 0x0d
        ||| s[i] == 0x20
        ||| (i + 1 < s.len() && s[i] == 0xc2 && (s[i + 1] == 0x85 || s[i + 1] == 0xa0))
        ||| (i + 2 < s.len() && s[i] == 0xe1 && s[i + 1] == 0x9a && s[i + 2] == 0x80)
        ||| (i + 2 < s.len() && s[i] == 0xe2 && s[i + 1] == 0x80 && (0x80 <= s[i + 2] <= 0x8a
            || s[i + 2] == 0xa8 || s[i + 2] == 0xa9 || s[i + 2] == 0xaf))
        ||| (i + 2 < s.len() && s[i] == 0xe2 && s[i + 1] == 0x81 && s[i + 2] == 0x9f)
        ||| (i + 2 < s.len() && s[i] == 0xe3 && s[i + 1] == 0x80 && s[i + 2] == 0x80)
    }
}

/// The offset of the first white-space character at or after `i`, or the
/// length of `s` where there is none.
pub open spec fn name_end(s: Seq<u8>, i: int) -> int
    decreases s.len() - i,
{
    if i < 0 || i >= s.len() {
        s.len() as int
    } else if whitespace_at(s, i) {
        i
    } else {
        name_end(s, i + 1)
    }
}

/// Tests whether a white-space character starts at offset `i`.
fn is_whitespace_at(bytes: &[u8], i: usize) -> (found: bool)
    requires
        i < bytes@.len(),
    ensures
        found == whitespace_at(bytes@, i as int),
{
    let n = bytes.len();
    let b = bytes[i];
    if (0x09 <= b && b <= 0x0d) || b == 0x20 {
        true
    } else if b == 0xc2 {
        n - i > 1 && (bytes[i + 1] == 0x85 || bytes[i + 1] == 0xa0)
    } else if b == 0xe1 {
        n - i > 2 && bytes[i + 1] == 0x9a && bytes[i + 2] == 0x80
    } else if b == 0xe2 {
        n - i > 2 && ((bytes[i + 1] == 0x80 && ((0x80 <= bytes[i + 2] && bytes[i + 2] <= 0x8a)
            || bytes[i + 2] == 0xa8 || bytes[i + 2] == 0xa9 || bytes[i + 2] == 0xaf)) || (bytes[i
            + 1] == 0x81 && bytes[i + 2] == 0x9f))
    } else if b == 0xe3 {
        n - i > 2 && bytes[i + 1] == 0x80 && bytes[i + 2] == 0x80
    } else {
        false
    }
}

/// A texture on a plane: its name and how it lies on the plane.
#[derive(Debug, Clone, PartialEq, Eq)]
pub struct Texture {
    pub name: String,
    pub alignment: TextureAlignment,
}

/// A texture as the grammar gives it.
pub struct TextureView {
    pub name: Seq<char>,
    pub alignment: TextureAlignmentView,
}

impl View for Texture {
    type V = TextureView;

    open spec fn view(&self) -> TextureView {
        TextureView { name: self.name@, alignment: self.alignment@ }
    }
}

/// The rule for a texture at `i`: the name, which runs up to the first
/// white-space character and may be empty, a separator, and the alignment.
pub open spec fn texture_at(s: Seq<u8>, i: int) -> Outcome<TextureView> {
    let j = name_end(s, i);
    match alignment_at(s, separator_end(s, j)) {
        Err(e) => Err(e),
        Ok((alignment, k)) => Ok((TextureView { name: decode_utf8(s.subrange(i, j)), alignment }, k)),
    }
}

impl Parse for Texture {
    open spec fn rule(s: Seq<u8>, i: int) -> Outcome<TextureView> {
        texture_at(s, i)
    }

    fn parse_at(input: Input<'_>, i: usize) -> (r: Step<Self>) {
        proof {
            assert(Self::rule(input.spec_bytes(), i as int) == texture_at(input.spec_bytes(), i as int));
        }
        let bytes = input.as_bytes();
        let n = bytes.len();
        let ghost s = input.spec_bytes();
        let mut j = i;
        while j < n && !is_whitespace_at(bytes, j)
            invariant
                i <= j <= n,
                n == s.len(),
                bytes@ == s,
                name_end(s, j as int) == name_end(s, i as int),
            decreases n - j,
        {
            j += 1;
        }
        proof {
            if j < n {
                lemma_cut_point_at_leading_byte(s, j as int);
            } else {
                lemma_ends_are_cut_points(input);
            }
        }
        let name = slice(input, i, j).to_owned();
        let start = separator(input, j);
        match TextureAlignment::parse_at(input, start) {
            Ok((alignment, k)) => Ok((Texture { name, alignment }, k)),
            Err(stop) => Err(stop),
        }
    }
}

/// The rule for one point of a plane at `i`: `(`, three numbers, `)` and a
/// separator.
pub open spec fn point_at(s: Seq<u8>, i: int) -> Outcome<TripleView> {
    if !stands(s, i, 0x28) {
        Err(fails(i, ErrorKind::Char))
    } else {
        match triple_at(s, separator_end(s, i + 1)) {
            Err(e) => Err(e),
            Ok((point, j)) => {
                let close = separator_end(s, j);
                if stands(s, close, 0x29) {
                    Ok((point, separator_end(s, close + 1)))
                } else {
                    Err(fails(close, ErrorKind::Char))
                }
            },
        }
    }
}

/// The points that follow one another from `i` on, as many as there are,
/// and the offset after them.
pub open spec fn points_from(s: Seq<u8>, i: int) -> (Seq<TripleView>, int)
    decreases s.len() - i,
{
    match point_at(s, i) {
        Ok((point, j)) => if i < j <= s.len() {
            let (more, end) = points_from(s, j);
            (seq![point] + more, end)
        } else {
            (Seq::empty(), i)
        },
        Err(_) => (Seq::empty(), i),
    }
}

/// Reads one point of a plane at offset `i`.
fn point(input: Input<'_>, i: usize) -> (r: Step<Triple>)
    requires
        cut_point(input.spec_bytes(), i as int),
    ensures
        agrees(r, point_at(input.spec_bytes(), i as int)),
        in_text(r, input.spec_bytes(), i as int),
        r matches Ok((_, next)) ==> i < next,
{
    if !byte_is(input, i, 0x28) {
        return Err(Stop::new(i, ErrorKind::Char));
    }
    let start = separator(input, i + 1);
    let (point, j) = match Triple::parse_at(input, start) {
        Ok(read) => read,
        Err(stop) => return Err(stop),
    };
    let close = separator(input, j);
    if byte_is(input, close, 0x29) {
        Ok((point, separator(input, close + 1)))
    } else {
        Err(Stop::new(close, ErrorKind::Char))
    }
}

/// Reads the points that follow one another from offset `i` on.
fn points(input: Input<'_>, i: usize) -> (r: (Vec<Triple>, usize))
    requires
        cut_point(input.spec_bytes(), i as int),
    ensures
        (views(r.0@), r.1 as int) == points_from(input.spec_bytes(), i as int),
        cut_point(input.spec_bytes(), r.1 as int),
        i <= r.1,
{
    let ghost s = input.spec_bytes();
    let mut found: Vec<Triple> = Vec::new();
    let mut j = i;
    proof {
        assert(views(found@) + points_from(s, j as int).0 =~= points_from(s, i as int).0);
    }
    loop
        invariant
            s == input.spec_bytes(),
            cut_point(s, j as int),
            i <= j,
            points_from(s, i as int).0 == views(found@) + points_from(s, j as int).0,
            points_from(s, i as int).1 == points_from(s, j as int).1,
        decreases s.len() - j,
    {
        match point(input, j) {
            Ok((item, next)) => {
                proof {
                    lemma_views_push(found@, item);
                    let more = points_from(s, next as int).0;
                    assert((views(found@) + seq![item@]) + more =~= views(found@) + (seq![item@]
                        + more));
                }
                found.push(item);
                j = next;
            },
            Err(_) => {
                proof {
                    assert(views(found@) + Seq::<TripleView>::empty() =~= views(found@));
                }
                return (found, j);
            },
        }
    }
}

/// A plane of a brush: three points that lie in it, and its texture. The
/// brush lies on one side of the plane.
#[derive(Debug, Clone, PartialEq, Eq)]
pub struct Plane {
    pub points: [Triple; 3],
    pub texture: Texture,
}

/// A plane as the grammar gives it: its points are three.
pub struct PlaneView {
    pub points: Seq<TripleView>,
    pub texture: TextureView,
}

impl View for Plane {
    type V = PlaneView;

    open spec fn view(&self) -> PlaneView {
        PlaneView { points: views(self.points@), texture: self.texture@ }
    }
}

/// The rule for a plane at `i`: the points that follow one another, which
/// must be three, and the texture.
pub open spec fn plane_at(s: Seq<u8>, i: int) -> Outcome<PlaneView> {
    let (points, j) = points_from(s, i);
    if points.len() != 3 {
        Err(fails(i, ErrorKind::Verify))
    } else {
        match texture_at(s, j) {
            Err(e) => Err(e),
            Ok((texture, k)) => Ok((PlaneView { points, texture }, k)),
        }
    }
}

impl Parse for Plane {
    open spec fn rule(s: Seq<u8>, i: int) -> Outcome<PlaneView> {
        plane_at(s, i)
    }

    fn parse_at(input: Input<'_>, i: usize) -> (r: Step<Self>) {
        proof {
            assert(Self::rule(input.spec_bytes(), i as int) == plane_at(input.spec_bytes(), i as int));
        }
        let (mut found, j) = points(input, i);
        if found.len() != 3 {
            return Err(Stop::new(i, ErrorKind::Verify));
        }
        let ghost all = found@;
        let third = found.pop().unwrap();
        let second = found.pop().unwrap();
        let first = found.pop().unwrap();
        let points = [first, second, third];
        proof {
            assert(points@ =~= all);
        }
        match Texture::parse_at(input, j) {
            Ok((texture, k)) => Ok((Plane { points, texture }, k)),
            Err(stop) => Err(stop),
        }
    }
}

/// The planes that follow one another from `i` on, each with the separator
/// after it, and the offset after them.
pub open spec fn planes_from(s: Seq<u8>, i: int) -> (Seq<PlaneView>, int)
    decreases s.len() - i,
{
    match plane_at(s, i) {
        Ok((plane, j)) => {
            let next = separator_end(s, j);
            if i < next <= s.len() {
                let (more, end) = planes_from(s, next);
                (seq![plane] + more, end)
            } else {
                (Seq::empty(), i)
            }
        },
        Err(_) => (Seq::empty(), i),
    }
}

/// Reads the planes that follow one another from offset `i` on.
fn planes(input: Input<'_>, i: usize) -> (r: (Vec<Plane>, usize))
    requires
        cut_point(input.spec_bytes(), i as int),
    ensures
        (views(r.0@), r.1 as int) == planes_from(input.spec_bytes(), i as int),
        cut_point(input.spec_bytes(), r.1 as int),
        i <= r.1,
{
    let ghost s = input.spec_bytes();
    let mut found: Vec<Plane> = Vec::new();
    let mut j = i;
    proof {
        assert(views(found@) + planes_from(s, j as int).0 =~= planes_from(s, i as int).0);
    }
    loop
        invariant
            s == input.spec_bytes(),
            cut_point(s, j as int),
            i <= j,
            planes_from(s, i as int).0 == views(found@) + planes_from(s, j as int).0,
            planes_from(s, i as int).1 == planes_from(s, j as int).1,
        decreases s.len() - j,
    {
        let step = Plane::parse_at(input, j);
        proof {
            assert(Plane::rule(s, j as int) == plane_at(s, j as int));
        }
        match step {
            Ok((item, after)) => {
                let next = separator(input, after);
                if next <= j {
                    proof {
                        assert(views(found@) + Seq::<PlaneView>::empty() =~= views(found@));
                    }
                    return (found, j);
                }
                proof {
                    lemma_views_push(found@, item);
                    let more = planes_from(s, next as int).0;
                    assert((views(found@) + seq![item@]) + more =~= views(found@) + (seq![item@]
                        + more));
                }
                found.push(item);
                j = next;
            },
            Err(_) => {
                proof {
                    assert(views(found@) + Seq::<PlaneView>::empty() =~= views(found@));
                }
                return (found, j);
            },
        }
    }
}

/// A brush: a convex solid, given by the planes that bound it.
#[derive(Debug, Clone, PartialEq, Eq)]
pub struct Brush {
    pub planes: Vec<Plane>,
}

/// A brush as the grammar gives it.
pub struct BrushView {
    pub planes: Seq<PlaneView>,
}

impl View for Brush {
    type V = BrushView;

    open spec fn view(&self) -> BrushView {
        BrushView { planes: views(self.planes@) }
    }
}

/// The rule for a brush at `i`: `{`, planes, `}`, with separators between
/// them.
pub open spec fn brush_at(s: Seq<u8>, i: int) -> Outcome<BrushView> {
    if !stands(s, i, 0x7b) {
        Err(fails(i, ErrorKind::Char))
    } else {
        let (planes, j) = planes_from(s, separator_end(s, i + 1));
        let close = separator_end(s, j);
        if stands(s, close, 0x7d) {
            Ok((BrushView { planes }, close + 1))
        } else {
            Err(fails(close, ErrorKind::Char))
        }
    }
}

impl Parse for Brush {
    open spec fn rule(s: Seq<u8>, i: int) -> Outcome<BrushView> {
        brush_at(s, i)
    }

    fn parse_at(input: Input<'_>, i: usize) -> (r: Step<Self>) {
        proof {
            assert(Self::rule(input.spec_bytes(), i as int) == brush_at(input.spec_bytes(), i as int));
        }
        if !byte_is(input, i, 0x7b) {
            return Err(Stop::new(i, ErrorKind::Char));
        }
        let start = separator(input, i + 1);
        let (planes, j) = planes(input, start);
        let close = separator(input, j);
        if byte_is(input, close, 0x7d) {
            Ok((Brush { planes }, close + 1))
        } else {
            Err(Stop::new(close, ErrorKind::Char))
        }
    }
}

/// The brushes that follow one another from `i` on, each with the separator
/// after it, and the offset after them.
pub open spec fn brushes_from(s: Seq<u8>, i: int) -> (Seq<BrushView>, int)
    decreases s.len() - i,
{
    match brush_at(s, i) {
        Ok((brush, j)) => {
            let next = separator_end(s, j);
            if i < next <= s.len() {
                let (more, end) = brushes_from(s, next);
                (seq![brush] + more, end)
            } else {
                (Seq::empty(), i)
            }
        },
        Err(_) => (Seq::empty(), i),
    }
}

/// Reads the brushes that follow one another from offset `i` on.
fn brushes(input: Input<'_>, i: usize) -> (r: (Vec<Brush>, usize))
    requires
        cut_point(input.spec_bytes(), i as int),
    ensures
        (views(r.0@), r.1 as int) == brushes_from(input.spec_bytes(), i as int),
        cut_point(input.spec_bytes(), r.1 as int),
        i <= r.1,
{
    let ghost s = input.spec_bytes();
    let mut found: Vec<Brush> = Vec::new();
    let mut j = i;
    proof {
        assert(views(found@) + brushes_from(s, j as int).0 =~= brushes_from(s, i as int).0);
    }
    loop
        invariant
            s == input.spec_bytes(),
            cut_point(s, j as int),
            i <= j,
            brushes_from(s, i as int).0 == views(found@) + brushes_from(s, j as int).0,
            brushes_from(s, i as int).1 == brushes_from(s, j as int).1,
        decreases s.len() - j,
    {
        let step = Brush::parse_at(input, j);
        proof {
            assert(Brush::rule(s, j as int) == brush_at(s, j as int));
        }
        match step {
            Ok((item, after)) => {
                let next = separator(input, after);
                if next <= j {
                    proof {
                        assert(views(found@) + Seq::<BrushView>::empty() =~= views(found@));
                    }
                    return (found, j);
                }
                proof {
                    lemma_views_push(found@, item);
                    let more = brushes_from(s, next as int).0;
                    assert((views(found@) + seq![item@]) + more =~= views(found@) + (seq![item@]
                        + more));
                }
                found.push(item);
                j = next;
            },
            Err(_) => {
                proof {
                    assert(views(found@) + Seq::<BrushView>::empty() =~= views(found@));
                }
                return (found, j);
            },
        }
    }
}

/// The key starts with `_tb_`: the editor keeps it for its own use.
pub open spec fn internal_key(key: Seq<char>) -> bool {
    key.len() >= 4 && key[0] == '_' && key[1] == 't' && key[2] == 'b' && key[3] == '_'
}

/// Tests whether `key` starts with `_tb_`.
fn is_internal_key(key: &str) -> (internal: bool)
    ensures
        internal == internal_key(key@),
{
    key.unicode_len() >= 4 && key.get_char(0) == '_' && key.get_char(1) == 't' && key.get_char(2)
        == 'b' && key.get_char(3) == '_'
}

/// The rule for a key/value pair at `i`: two quoted strings and the
/// separators after each.
pub open spec fn field_at(s: Seq<u8>, i: int) -> Outcome<Entry> {
    match quoted_string_at(s, i) {
        Err(e) => Err(e),
        Ok((key, j)) => match quoted_string_at(s, separator_end(s, j)) {
            Err(e) => Err(e),
            Ok((value, k)) => Ok(((key, value), separator_end(s, k))),
        },
    }
}

/// The pairs that follow one another from `i` on, added to `seen`, and the
/// offset after them. A later value of a key replaces an earlier one, and a
/// pair with an internal key is left out.
pub open spec fn fields_from(s: Seq<u8>, i: int, seen: Map<Seq<char>, Seq<char>>) -> (
    Map<Seq<char>, Seq<char>>,
    int,
)
    decreases s.len() - i,
{
    match field_at(s, i) {
        Ok(((key, value), next)) => if i < next <= s.len() {
            fields_from(
                s,
                next,
                if internal_key(key) {
                    seen
                } else {
                    seen.insert(key, value)
                },
            )
        } else {
            (seen, i)
        },
        Err(_) => (seen, i),
    }
}

/// The rule for the fields of an entity at `i`. It always matches.
pub open spec fn fields_at(s: Seq<u8>, i: int) -> Outcome<Map<Seq<char>, Seq<char>>> {
    Ok(fields_from(s, i, Map::empty()))
}

/// Reads a key/value pair at offset `i`.
fn field<'i>(input: Input<'i>, i: usize) -> (r: Step<(&'i str, &'i str)>)
    requires
        cut_point(input.spec_bytes(), i as int),
    ensures
        agrees(r, field_at(input.spec_bytes(), i as int)),
        in_text(r, input.spec_bytes(), i as int),
{
    let (key, j) = match quoted_string_from(input, i) {
        Ok(read) => read,
        Err(stop) => return Err(stop),
    };
    let j = separator(input, j);
    let (value, k) = match quoted_string_from(input, j) {
        Ok(read) => read,
        Err(stop) => return Err(stop),
    };
    Ok(((key, value), separator(input, k)))
}

impl Parse for Fields {
    open spec fn rule(s: Seq<u8>, i: int) -> Outcome<Map<Seq<char>, Seq<char>>> {
        fields_at(s, i)
    }

    fn parse_at(input: Input<'_>, i: usize) -> (r: Step<Self>) {
        proof {
            assert(Self::rule(input.spec_bytes(), i as int) == fields_at(input.spec_bytes(), i as int));
        }
        let ghost s = input.spec_bytes();
        let mut seen = Fields::new();
        let mut j = i;
        loop
            invariant
                s == input.spec_bytes(),
                cut_point(s, j as int),
                i <= j,
                fields_from(s, i as int, Map::empty()) == fields_from(s, j as int, seen@),
            decreases s.len() - j,
        {
            match field(input, j) {
                Ok(((key, value), next)) => {
                    if next <= j {
                        return Ok((seen, j));
                    }
                    if !is_internal_key(key) {
                        seen = seen.insert(key.to_owned(), value.to_owned());
                    }
                    j = next;
                },
                Err(_) => {
                    return Ok((seen, j));
                },
            }
        }
    }
}

/// An entity of a map: its key/value pairs and its brushes. A point entity,
/// such as a light, has no brushes.
#[derive(Debug, Clone)]
pub struct MapEntity {
    pub fields: Fields,
    pub brushes: Vec<Brush>,
}

/// An entity as the grammar gives it.
pub struct MapEntityView {
    pub fields: Map<Seq<char>, Seq<char>>,
    pub brushes: Seq<BrushView>,
}

impl View for MapEntity {
    type V = MapEntityView;

    open spec fn view(&self) -> MapEntityView {
        MapEntityView { fields: self.fields@, brushes: views(self.brushes@) }
    }
}

/// The rule for an entity at `i`: `{`, the key/value pairs, the brushes,
/// `}`, with separators between them.
pub open spec fn entity_at(s: Seq<u8>, i: int) -> Outcome<MapEntityView> {
    if !stands(s, i, 0x7b) {
        Err(fails(i, ErrorKind::Char))
    } else {
        let (fields, j) = fields_from(s, separator_end(s, i + 1), Map::empty());
        let (brushes, close) = brushes_from(s, separator_end(s, j));
        if stands(s, close, 0x7d) {
            Ok((MapEntityView { fields, brushes }, close + 1))
        } else {
            Err(fails(close, ErrorKind::Char))
        }
    }
}

impl Parse for MapEntity {
    open spec fn rule(s: Seq<u8>, i: int) -> Outcome<MapEntityView> {
        entity_at(s, i)
    }

    fn parse_at(input: Input<'_>, i: usize) -> (r: Step<Self>) {
        proof {
            assert(Self::rule(input.spec_bytes(), i as int) == entity_at(input.spec_bytes(), i as int));
        }
        if !byte_is(input, i, 0x7b) {
            return Err(Stop::new(i, ErrorKind::Char));
        }
        let start = separator(input, i + 1);
        let step = Fields::parse_at(input, start);
        proof {
            assert(Fields::rule(input.spec_bytes(), start as int) == fields_at(
                input.spec_bytes(),
                start as int,
            ));
        }
        let (fields, j) = match step {
            Ok(read) => read,
            Err(stop) => return Err(stop),
        };
        let j = separator(input, j);
        let (brushes, close) = brushes(input, j);
        if byte_is(input, close, 0x7d) {
            Ok((MapEntity { fields, brushes }, close + 1))
        } else {
            Err(Stop::new(close, ErrorKind::Char))
        }
    }
}

/// The entities that follow one another from `i` on, each with the
/// separator after it, and the offset after them.
pub open spec fn entities_from(s: Seq<u8>, i: int) -> (Seq<MapEntityView>, int)
    decreases s.len() - i,
{
    match entity_at(s, i) {
        Ok((entity, j)) => {
            let next = separator_end(s, j);
            if i < next <= s.len() {
                let (more, end) = entities_from(s, next);
                (seq![entity] + more, end)
            } else {
                (Seq::empty(), i)
            }
        },
        Err(_) => (Seq::empty(), i),
    }
}

/// Reads the entities that follow one another from offset `i` on, after
/// those in `found`.
pub(crate) fn entities(input: Input<'_>, i: usize, found: Vec<MapEntity>) -> (r: (
    Vec<MapEntity>,
    usize,
))
    requires
        cut_point(input.spec_bytes(), i as int),
    ensures
        views(r.0@) == views(found@) + entities_from(input.spec_bytes(), i as int).0,
        r.1 as int == entities_from(input.spec_bytes(), i as int).1,
        cut_point(input.spec_bytes(), r.1 as int),
        i <= r.1,
{
    let ghost s = input.spec_bytes();
    let ghost first = views(found@);
    let mut all = found;
    let mut j = i;
    proof {
        assert(first + entities_from(s, i as int).0 =~= views(all@) + entities_from(
            s,
            j as int,
        ).0);
    }
    loop
        invariant
            s == input.spec_bytes(),
            first == views(found@),
            cut_point(s, j as int),
            i <= j,
            first + entities_from(s, i as int).0 == views(all@) + entities_from(s, j as int).0,
            entities_from(s, i as int).1 == entities_from(s, j as int).1,
        decreases s.len() - j,
    {
        let step = MapEntity::parse_at(input, j);
        proof {
            assert(MapEntity::rule(s, j as int) == entity_at(s, j as int));
        }
        match step {
            Ok((item, after)) => {
                let next = separator(input, after);
                if next <= j {
                    proof {
                        assert(views(all@) + Seq::<MapEntityView>::empty() =~= views(all@));
                    }
                    return (all, j);
                }
                proof {
                    lemma_views_push(all@, item);
                    let more = entities_from(s, next as int).0;
                    assert((views(all@) + seq![item@]) + more =~= views(all@) + (seq![item@]
                        + more));
                }
                all.push(item);
                j = next;
            },
            Err(_) => {
                proof {
                    assert(views(all@) + Seq::<MapEntityView>::empty() =~= views(all@));
                }
                return (all, j);
            },
        }
    }
}

} // verus!
