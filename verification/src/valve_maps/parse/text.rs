//! Positions in UTF-8 text.
//!
//! The grammar is read byte by byte. A position is a byte offset into the
//! text, and every position the grammar stops at lies between two
//! characters, so the text can be cut there.

use vstd::prelude::*;
use vstd::string::*;
use vstd::utf8::*;

verus! {

/// The bytes of `s` from `i` to its end.
pub open spec fn tail(s: Seq<u8>, i: int) -> Seq<u8> {
    s.subrange(i, s.len() as int)
}

/// `i` is an offset into valid UTF-8 text `s` at which the text can be cut.
pub open spec fn cut_point(s: Seq<u8>, i: int) -> bool {
    &&& valid_utf8(s)
    &&& 0 <= i <= s.len()
    &&& is_char_boundary(s, i)
}

/// A position from which the rest of the text is valid UTF-8 is a cut point.
pub proof fn lemma_valid_tail_is_cut_point(s: Seq<u8>, i: int)
    requires
        valid_utf8(s),
        0 <= i <= s.len(),
        valid_utf8(tail(s, i)),
    ensures
        cut_point(s, i),
{
    broadcast use is_char_boundary_start_end_of_seq;
    if i < s.len() {
        let t = tail(s, i);
        assert(t.len() > 0);
        assert(valid_first_scalar(t));
        assert(t[0] == s[i]);
        assert(!is_continuation_byte(s[i]));
        is_char_boundary_iff_not_is_continuation_byte(s, i);
    }
}

/// The position after an ASCII byte that stands at a cut point is a cut point.
pub proof fn lemma_cut_point_after_ascii(s: Seq<u8>, i: int)
    requires
        cut_point(s, i),
        i < s.len(),
        s[i] < 0x80,
    ensures
        cut_point(s, i + 1),
{
    valid_utf8_split(s, i);
    let t = tail(s, i);
    assert(valid_utf8(t));
    assert(t[0] == s[i]);
    assert(valid_first_scalar(t) && valid_utf8(pop_first_scalar(t)));
    assert(length_of_first_scalar(t) == 1);
    assert(pop_first_scalar(t) =~= tail(s, i + 1));
    lemma_valid_tail_is_cut_point(s, i + 1);
}

/// A position that holds a byte which starts a character is a cut point.
pub proof fn lemma_cut_point_at_leading_byte(s: Seq<u8>, i: int)
    requires
        valid_utf8(s),
        0 <= i < s.len(),
        !is_continuation_byte(s[i]),
    ensures
        cut_point(s, i),
{
    is_char_boundary_iff_not_is_continuation_byte(s, i);
}

/// The start and the end of a text are cut points.
pub proof fn lemma_ends_are_cut_points(input: &str)
    ensures
        valid_utf8(input.spec_bytes()),
        cut_point(input.spec_bytes(), 0),
        cut_point(input.spec_bytes(), input.spec_bytes().len() as int),
{
    encode_utf8_valid_utf8(input@);
    is_char_boundary_start_end_of_seq(input.spec_bytes());
}

/// The number of bytes in `input`.
pub fn length(input: &str) -> (n: usize)
    ensures
        n == input.spec_bytes().len(),
        cut_point(input.spec_bytes(), n as int),
        cut_point(input.spec_bytes(), 0),
{
    proof {
        lemma_ends_are_cut_points(input);
    }
    input.as_bytes().len()
}

/// The part of `input` from byte `from` up to byte `to`.
pub fn slice<'i>(input: &'i str, from: usize, to: usize) -> (piece: &'i str)
    requires
        cut_point(input.spec_bytes(), from as int),
        cut_point(input.spec_bytes(), to as int),
        from <= to,
    ensures
        piece.spec_bytes() == input.spec_bytes().subrange(from as int, to as int),
        piece@ == decode_utf8(input.spec_bytes().subrange(from as int, to as int)),
{
    broadcast use encode_utf8_valid_utf8, encode_utf8_decode_utf8;
    let (head, _) = input.split_at(to);
    proof {
        let s = input.spec_bytes();
        let h = s.subrange(0, to as int);
        assert(head.spec_bytes() =~= h);
        assert(valid_utf8(h));
        if from < to {
            is_char_boundary_iff_not_is_continuation_byte(s, from as int);
            assert(h[from as int] == s[from as int]);
            is_char_boundary_iff_not_is_continuation_byte(h, from as int);
        } else {
            is_char_boundary_start_end_of_seq(h);
        }
    }
    let (_, piece) = head.split_at(from);
    proof {
        let s = input.spec_bytes();
        assert(piece.spec_bytes() =~= s.subrange(from as int, to as int));
    }
    piece
}

} // verus!
