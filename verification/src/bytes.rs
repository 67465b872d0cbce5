//! Bytes from outside: as text, and cut at zero bytes.
use std::str::Utf8Error;
use vstd::prelude::*;
use vstd::string::StringSliceAdditionalSpecFns;
use vstd::utf8::*;

verus! {

/// The error of `str::from_utf8`.
#[verifier::external_type_specification]
#[verifier::external_body]
pub struct ExUtf8Error(Utf8Error);

/// `str::from_utf8` of the standard library: bytes that are valid UTF-8 become
/// the text with those bytes, and no others do.
pub assume_specification<'a>[ core::str::from_utf8 ](v: &'a [u8]) -> (r: Result<&'a str, Utf8Error>)
    ensures
        r is Ok <==> valid_utf8(v@),
        r matches Ok(s) ==> s.spec_bytes() == v@,
;

/// The text that `String::from_utf8_lossy` of the standard library makes of
/// bytes.
pub uninterp spec fn lossy(bytes: Seq<u8>) -> Seq<char>;

/// `String::from_utf8_lossy` of the standard library. Bytes that are valid UTF-8
/// become the text that they encode. What stands in the place of invalid bytes
/// is part of the name and not stated further.
#[verifier::external_body]
pub(crate) fn lossy_text(bytes: &[u8]) -> (r: String)
    ensures
        r@ == lossy(bytes@),
        valid_utf8(bytes@) ==> r@ == decode_utf8(bytes@),
{
    String::from_utf8_lossy(bytes).into_owned()
}

/// The text that the bytes encode, or nothing if they are not valid UTF-8.
pub open spec fn text_or_nothing(bytes: Seq<u8>) -> Seq<char> {
    if valid_utf8(bytes) {
        decode_utf8(bytes)
    } else {
        Seq::empty()
    }
}

/// The text that the bytes encode, or nothing if they are not valid UTF-8.
pub fn to_text(bytes: &[u8]) -> (r: String)
    ensures
        r@ == text_or_nothing(bytes@),
{
    match core::str::from_utf8(bytes) {
        Ok(s) => {
            proof {
                encode_utf8_decode_utf8(s@);
            }
            s.to_owned()
        },
        Err(_) => String::new(),
    }
}

/// The bytes before the first zero byte.
pub open spec fn until_zero(bytes: Seq<u8>) -> Seq<u8>
    decreases bytes.len(),
{
    if bytes.len() == 0 || bytes[0] == 0 {
        Seq::empty()
    } else {
        seq![bytes[0]] + until_zero(bytes.skip(1))
    }
}

/// The bytes without the zero bytes at their start.
pub open spec fn skip_zeros(bytes: Seq<u8>) -> Seq<u8>
    decreases bytes.len(),
{
    if bytes.len() > 0 && bytes[0] == 0 {
        skip_zeros(bytes.skip(1))
    } else {
        bytes
    }
}

/// The first of the pieces between the zero bytes that is not empty; empty if
/// there is none.
pub open spec fn first_piece(bytes: Seq<u8>) -> Seq<u8> {
    until_zero(skip_zeros(bytes))
}

/// The second of the pieces between the zero bytes that is not empty; empty if
/// there is none.
pub open spec fn second_piece(bytes: Seq<u8>) -> Seq<u8> {
    first_piece(skip_zeros(bytes).skip(first_piece(bytes).len() as int))
}

pub proof fn lemma_until_zero(bytes: Seq<u8>, end: int)
    requires
        0 <= end <= bytes.len(),
        end == bytes.len() || bytes[end] == 0,
        forall|i: int| 0 <= i < end ==> bytes[i] != 0,
    ensures
        until_zero(bytes) == bytes.take(end),
    decreases end,
{
    if end == 0 {
        assert(bytes.take(0) =~= Seq::empty());
    } else {
        lemma_until_zero(bytes.skip(1), end - 1);
        assert(bytes.take(end) =~= seq![bytes[0]] + bytes.skip(1).take(end - 1));
    }
}

/// Where the zero bytes from `from` on end.
fn end_of_zeros(bytes: &[u8], from: usize) -> (r: usize)
    requires
        from <= bytes@.len(),
    ensures
        from <= r <= bytes@.len(),
        skip_zeros(bytes@.skip(from as int)) == bytes@.skip(r as int),
{
    let mut i: usize = from;
    while i < bytes.len() && bytes[i] == 0
        invariant
            from <= i <= bytes@.len(),
            skip_zeros(bytes@.skip(from as int)) == skip_zeros(bytes@.skip(i as int)),
        decreases bytes@.len() - i,
    {
        proof {
            assert(bytes@.skip(i as int)[0] == 0);
            assert(bytes@.skip(i as int).skip(1) =~= bytes@.skip(i + 1));
        }
        i = i + 1;
    }
    proof {
        if i < bytes@.len() {
            assert(bytes@.skip(i as int)[0] == bytes@[i as int]);
        }
    }
    i
}

/// Where the bytes from `from` on meet a zero byte, or end.
pub fn next_zero(bytes: &[u8], from: usize) -> (r: usize)
    requires
        from <= bytes@.len(),
    ensures
        from <= r <= bytes@.len(),
        until_zero(bytes@.skip(from as int)) == bytes@.subrange(from as int, r as int),
{
    let mut i: usize = from;
    while i < bytes.len() && bytes[i] != 0
        invariant
            from <= i <= bytes@.len(),
            forall|j: int| from <= j < i ==> bytes@[j] != 0,
        decreases bytes@.len() - i,
    {
        i = i + 1;
    }
    proof {
        let rest = bytes@.skip(from as int);
        assert forall|j: int| 0 <= j < i - from implies rest[j] != 0 by {
            assert(rest[j] == bytes@[from + j]);
        }
        if i < bytes@.len() {
            assert(rest[i - from] == bytes@[i as int]);
        }
        lemma_until_zero(rest, i - from);
        assert(rest.take(i - from) =~= bytes@.subrange(from as int, i as int));
    }
    i
}

/// The texts of the first two pieces between the zero bytes that are not empty.
/// `None` stands for a second piece that is not there.
pub fn two_pieces(bytes: &[u8]) -> (r: (String, Option<String>))
    ensures
        r.0@ == text_or_nothing(first_piece(bytes@)),
        r.1 is Some <==> second_piece(bytes@).len() > 0,
        r.1 matches Some(s) ==> s@ == text_or_nothing(second_piece(bytes@)),
{
    proof {
        assert(bytes@.skip(0) =~= bytes@);
    }
    let start = end_of_zeros(bytes, 0);
    let end = next_zero(bytes, start);
    let first = to_text(&bytes[start..end]);
    proof {
        assert(first_piece(bytes@) == bytes@.subrange(start as int, end as int));
        assert(skip_zeros(bytes@).skip(first_piece(bytes@).len() as int) =~= bytes@.skip(
            end as int,
        ));
    }
    let start2 = end_of_zeros(bytes, end);
    let end2 = next_zero(bytes, start2);
    if start2 < end2 {
        (first, Some(to_text(&bytes[start2..end2])))
    } else {
        (first, None)
    }
}

proof fn lemma_skip_zeros(zeros: Seq<u8>, rest: Seq<u8>)
    requires
        forall|i: int| 0 <= i < zeros.len() ==> zeros[i] == 0,
        rest.len() == 0 || rest[0] != 0,
    ensures
        skip_zeros(zeros + rest) == rest,
    decreases zeros.len(),
{
    if zeros.len() == 0 {
        assert(zeros + rest =~= rest);
    } else {
        assert((zeros + rest)[0] == zeros[0]);
        assert((zeros + rest).skip(1) =~= zeros.skip(1) + rest);
        lemma_skip_zeros(zeros.skip(1), rest);
    }
}

/// Zero bytes close the pieces: behind any zero bytes the first piece goes up to
/// the next zero byte, and the second piece is the first of what follows. Where
/// there are only zero bytes there is no piece.
pub proof fn law_pieces(zeros: Seq<u8>, piece: Seq<u8>, rest: Seq<u8>)
    requires
        forall|i: int| 0 <= i < zeros.len() ==> zeros[i] == 0,
        forall|i: int| 0 <= i < piece.len() ==> piece[i] != 0,
        piece.len() > 0,
        rest.len() == 0 || rest[0] == 0,
    ensures
        first_piece(zeros + piece + rest) == piece,
        second_piece(zeros + piece + rest) == first_piece(rest),
        first_piece(zeros) == Seq::<u8>::empty(),
        second_piece(zeros) == Seq::<u8>::empty(),
        until_zero(piece + rest) == piece,
{
    let all = zeros + piece + rest;
    let live = piece + rest;
    assert(all =~= zeros + live);
    lemma_skip_zeros(zeros, live);
    assert forall|i: int| 0 <= i < piece.len() implies live[i] != 0 by {
        assert(live[i] == piece[i]);
    }
    lemma_until_zero(live, piece.len() as int);
    assert(live.take(piece.len() as int) =~= piece);
    assert(live.skip(piece.len() as int) =~= rest);
    lemma_skip_zeros(zeros, Seq::empty());
    assert(zeros + Seq::empty() =~= zeros);
    assert(first_piece(zeros) =~= Seq::<u8>::empty());
    assert(skip_zeros(zeros).skip(0) =~= Seq::<u8>::empty());
}

/// The bytes of a text are read as that text, and bytes of no text as nothing.
pub proof fn law_text_is_read_back(s: Seq<char>, data: Seq<u8>)
    ensures
        text_or_nothing(encode_utf8(s)) == s,
        !valid_utf8(data) ==> text_or_nothing(data) == Seq::<char>::empty(),
{
    encode_utf8_valid_utf8(s);
    encode_utf8_decode_utf8(s);
}

} // verus!
