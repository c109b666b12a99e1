//! Operations on strings that the rest of the library needs.

use vstd::prelude::*;
use vstd::utf8::*;

verus! {

/// Whether two strings hold the same characters.
pub fn eq_slice(a: &str, b: &str) -> (same: bool)
    ensures
        same == (a@ == b@),
{
    let x: &[u8] = a.as_bytes();
    let y: &[u8] = b.as_bytes();
    proof {
        encode_utf8_decode_utf8(a@);
        encode_utf8_decode_utf8(b@);
    }
    if x.len() != y.len() {
        return false;
    }
    let mut i: usize = 0;
    while i < x.len()
        invariant
            i <= x.len(),
            x@.len() == y@.len(),
            x@ == encode_utf8(a@),
            y@ == encode_utf8(b@),
            forall|k: int| 0 <= k < i ==> x@[k] == y@[k],
        decreases x.len() - i,
    {
        if x[i] != y[i] {
            assert(x@ != y@);
            return false;
        }
        i = i + 1;
    }
    assert(x@ =~= y@);
    true
}

/// The pieces of text, one after the other.
pub open spec fn concat(pieces: Seq<Seq<char>>) -> Seq<char>
    decreases pieces.len(),
{
    if pieces.len() == 0 {
        Seq::empty()
    } else {
        concat(pieces.drop_last()) + pieces.last()
    }
}

/// Every piece of text is there in full: the pieces one after the other, and as many
/// characters as they have together.
pub proof fn law_pieces_are_whole(pieces: Seq<Seq<char>>)
    ensures
        concat(pieces) == pieces.flatten(),
        concat(pieces).len() == pieces.fold_left(0, |n: int, piece: Seq<char>| n + piece.len()),
    decreases pieces.len(),
{
    pieces.lemma_flatten_and_flatten_alt_are_equivalent();
    if pieces.len() > 0 {
        law_pieces_are_whole(pieces.drop_last());
        pieces.drop_last().lemma_flatten_and_flatten_alt_are_equivalent();
    }
}

/// A single piece of text is the text.
pub proof fn law_one_piece_is_the_text(piece: Seq<char>)
    ensures
        concat(seq![piece]) == piece,
{
    let pieces = seq![piece];
    assert(pieces.drop_last() =~= Seq::empty());
    assert(concat(pieces.drop_last()) =~= Seq::empty());
    assert(concat(pieces) =~= piece);
}

/// The text of some pieces and then some more is the text of the first ones, followed by
/// the text of the others.
pub proof fn law_texts_follow_each_other(first: Seq<Seq<char>>, second: Seq<Seq<char>>)
    ensures
        concat(first + second) == concat(first) + concat(second),
    decreases second.len(),
{
    if second.len() == 0 {
        assert(first + second =~= first);
        assert(concat(first) + concat(second) =~= concat(first));
    } else {
        assert((first + second).drop_last() =~= first + second.drop_last());
        law_texts_follow_each_other(first, second.drop_last());
        assert(concat(first + second) =~= concat(first) + concat(second));
    }
}

/// The bytes handed over are not UTF-8.
#[derive(Clone, Copy, Debug, PartialEq, Eq)]
pub struct NotUtf8;

/// Reads bytes as UTF-8 with `String::from_utf8`.
///
/// Nothing of that function is proved here. The contract claims that it accepts
/// exactly the valid UTF-8 byte sequences, and that the string it gives back holds
/// the characters that the bytes encode.
#[verifier::external_body]
pub(crate) fn from_utf8(bytes: Vec<u8>) -> (decoded: Result<String, NotUtf8>)
    ensures
        decoded is Ok <==> valid_utf8(bytes@),
        decoded matches Ok(s) ==> s@ == decode_utf8(bytes@),
{
    String::from_utf8(bytes).map_err(|_| NotUtf8)
}

} // verus!
