//! Characters and bytes of a UTF-8 string: where each character starts in the
//! encoding, and the `String` operations that work at such a byte position.

use vstd::prelude::*;
use vstd::utf8::*;

verus! {

/// The byte position at which character `k` of `text` starts in the UTF-8
/// encoding of `text`: the encoded length of the `k` characters before it.
/// For `k == text.len()` this is the length of the whole encoding.
pub open spec fn byte_offset(text: Seq<char>, k: int) -> nat {
    encode_utf8(text.take(k)).len()
}

/// `offsets` lists the byte position of every character of `text`, in order:
/// one entry for each character, the position at which it starts.
pub open spec fn is_offsets_of(offsets: Seq<usize>, text: Seq<char>) -> bool {
    &&& offsets.len() == text.len()
    &&& forall|k: int| 0 <= k < text.len() ==> #[trigger] offsets[k] == byte_offset(text, k)
}

/// Encoding is a homomorphism: the encoding of a concatenation is the
/// concatenation of the encodings.
pub proof fn lemma_encode_concat(a: Seq<char>, b: Seq<char>)
    ensures
        encode_utf8(a + b) == encode_utf8(a) + encode_utf8(b),
    decreases a.len(),
{
    if a.len() == 0 {
        assert(a + b =~= b);
        assert(encode_utf8(a) + encode_utf8(b) =~= encode_utf8(b));
    } else {
        let ab = a + b;
        assert(ab[0] == a[0]);
        assert(ab.drop_first() =~= a.drop_first() + b);
        lemma_encode_concat(a.drop_first(), b);
        assert(encode_utf8(ab) =~= encode_utf8(a) + encode_utf8(b));
    }
}

/// A single character encodes as its scalar value does.
pub proof fn lemma_encode_single(c: char)
    ensures
        encode_utf8(seq![c]) == encode_scalar(c as u32),
        1 <= encode_scalar(c as u32).len() <= 4,
{
    let one = seq![c];
    assert(one.drop_first() =~= Seq::<char>::empty());
    assert(encode_utf8(one.drop_first()) =~= Seq::<u8>::empty());
    assert(encode_utf8(one) =~= encode_scalar(c as u32));
}

/// The next character starts where this one ends.
pub proof fn lemma_byte_offset_step(text: Seq<char>, k: int)
    requires
        0 <= k < text.len(),
    ensures
        byte_offset(text, k + 1) == byte_offset(text, k) + encode_scalar(text[k] as u32).len(),
        byte_offset(text, k) < byte_offset(text, k + 1),
{
    assert(text.take(k + 1) =~= text.take(k) + seq![text[k]]);
    lemma_encode_concat(text.take(k), seq![text[k]]);
    lemma_encode_single(text[k]);
}

/// Later characters start at later bytes.
pub proof fn lemma_byte_offset_increasing(text: Seq<char>, i: int, j: int)
    requires
        0 <= i < j <= text.len(),
    ensures
        byte_offset(text, i) < byte_offset(text, j),
    decreases j - i,
{
    lemma_byte_offset_step(text, j - 1);
    if i < j - 1 {
        lemma_byte_offset_increasing(text, i, j - 1);
    }
}

/// The byte positions of the characters are strictly increasing, start at 0
/// and stay below the length of the encoding, which is the position that
/// follows the last character.
pub proof fn lemma_byte_offsets_ordered(text: Seq<char>)
    ensures
        byte_offset(text, 0) == 0,
        byte_offset(text, text.len() as int) == encode_utf8(text).len(),
        forall|i: int, j: int|
            0 <= i < j <= text.len() ==> #[trigger] byte_offset(text, i) < #[trigger] byte_offset(
                text,
                j,
            ),
{
    assert(text.take(0) =~= Seq::<char>::empty());
    assert(text.take(text.len() as int) =~= text);
    assert forall|i: int, j: int| 0 <= i < j <= text.len() implies #[trigger] byte_offset(text, i)
        < #[trigger] byte_offset(text, j) by {
        lemma_byte_offset_increasing(text, i, j);
    }
}

/// The encoding of a text that is not empty starts with the encoding of its
/// first character; what follows is the encoding of the rest.
proof fn lemma_encode_first(text: Seq<char>)
    requires
        text.len() > 0,
    ensures
        valid_utf8(encode_utf8(text)),
        length_of_first_scalar(encode_utf8(text)) == byte_offset(text, 1),
        1 <= byte_offset(text, 1) <= encode_utf8(text).len(),
        pop_first_scalar(encode_utf8(text)) == encode_utf8(text.drop_first()),
{
    encode_utf8_valid_utf8(text);
    encode_utf8_first_scalar(text);
    lemma_byte_offset_step(text, 0);
    lemma_encode_single(text[0]);
    assert(text.take(0) =~= Seq::<char>::empty());
    assert(pop_first_scalar(encode_utf8(text)) =~= encode_utf8(text.drop_first()));
}

/// Character `k` of a text that is not empty is character `k - 1` of the text
/// without its first character, one encoded character further on.
proof fn lemma_byte_offset_drop_first(text: Seq<char>, k: int)
    requires
        1 <= k <= text.len(),
    ensures
        byte_offset(text, k) == byte_offset(text, 1) + byte_offset(text.drop_first(), k - 1),
{
    assert(text.take(k) =~= text.take(1) + text.drop_first().take(k - 1));
    lemma_encode_concat(text.take(1), text.drop_first().take(k - 1));
}

/// Every character of a text starts on a character boundary of its encoding,
/// and so does the end of the text.
pub proof fn lemma_byte_offset_is_boundary(text: Seq<char>, k: int)
    requires
        0 <= k <= text.len(),
    ensures
        is_char_boundary(encode_utf8(text), byte_offset(text, k) as int),
    decreases k,
{
    encode_utf8_valid_utf8(text);
    if k == 0 {
        assert(text.take(0) =~= Seq::<char>::empty());
    } else {
        let rest = text.drop_first();
        lemma_encode_first(text);
        lemma_byte_offset_drop_first(text, k);
        lemma_byte_offsets_ordered(text);
        lemma_byte_offset_is_boundary(rest, k - 1);
    }
}

/// A character boundary of the encoding of a text is where one of its
/// characters starts, or its end: the result is that character's index.
pub proof fn lemma_boundary_is_byte_offset(text: Seq<char>, index: int) -> (k: int)
    requires
        is_char_boundary(encode_utf8(text), index),
    ensures
        0 <= k <= text.len(),
        byte_offset(text, k) == index,
    decreases text.len(),
{
    encode_utf8_valid_utf8(text);
    if index == 0 {
        assert(text.take(0) =~= Seq::<char>::empty());
        0
    } else {
        assert(0 < index <= encode_utf8(text).len());
        assert(text.len() > 0);
        let rest = text.drop_first();
        lemma_encode_first(text);
        let below = lemma_boundary_is_byte_offset(rest, index - byte_offset(text, 1));
        lemma_byte_offset_drop_first(text, below + 1);
        below + 1
    }
}

/// Cutting the encoding of a text where character `k` starts gives the
/// encodings of the text before and from that character, and decoding the two
/// pieces gives those two texts back.
pub proof fn lemma_split_at_byte_offset(text: Seq<char>, k: int)
    requires
        0 <= k <= text.len(),
    ensures
        byte_offset(text, k) <= encode_utf8(text).len(),
        decode_utf8(encode_utf8(text).subrange(0, byte_offset(text, k) as int)) == text.take(k),
        decode_utf8(
            encode_utf8(text).subrange(byte_offset(text, k) as int, encode_utf8(text).len() as int),
        ) == text.skip(k),
{
    let head = text.take(k);
    let tail = text.skip(k);
    let bytes = encode_utf8(text);
    let at = byte_offset(text, k) as int;
    assert(text =~= head + tail);
    lemma_encode_concat(head, tail);
    assert(bytes.subrange(0, at) =~= encode_utf8(head));
    assert(bytes.subrange(at, bytes.len() as int) =~= encode_utf8(tail));
    encode_utf8_decode_utf8(head);
    encode_utf8_decode_utf8(tail);
}

/// The number of bytes of the string's UTF-8 encoding.
pub fn byte_len(s: &String) -> (n: usize)
    ensures
        n == encode_utf8(s@).len(),
{
    s.as_str().as_bytes().len()
}

/// `String::insert`: puts `ch` into the string at byte position `idx`, which
/// must lie on a character boundary. The text before that position and the
/// text from it on stay as they are, with `ch` between them.
#[verifier::external_body]
pub(crate) fn string_insert(s: &mut String, idx: usize, ch: char)
    requires
        is_char_boundary(encode_utf8(old(s)@), idx as int),
    ensures
        final(s)@ == decode_utf8(encode_utf8(old(s)@).subrange(0, idx as int)) + seq![ch]
            + decode_utf8(
            encode_utf8(old(s)@).subrange(idx as int, encode_utf8(old(s)@).len() as int),
        ),
{
    s.insert(idx, ch)
}

/// `String::remove`: takes out the character that starts at byte position
/// `idx`, which must lie on a character boundary before the end, and returns
/// it. The text before that position stays, followed by what came after the
/// character.
#[verifier::external_body]
pub(crate) fn string_remove(s: &mut String, idx: usize) -> (ch: char)
    requires
        is_char_boundary(encode_utf8(old(s)@), idx as int),
        idx < encode_utf8(old(s)@).len(),
    ensures
        ch == decode_utf8(
            encode_utf8(old(s)@).subrange(idx as int, encode_utf8(old(s)@).len() as int),
        )[0],
        final(s)@ == decode_utf8(encode_utf8(old(s)@).subrange(0, idx as int)) + decode_utf8(
            encode_utf8(old(s)@).subrange(idx as int, encode_utf8(old(s)@).len() as int),
        ).drop_first(),
{
    s.remove(idx)
}

/// The byte position of every character of `s`, found by asking of each byte
/// position whether a character starts there.
pub fn char_offsets(s: &String) -> (offsets: Vec<usize>)
    ensures
        is_offsets_of(offsets@, s@),
{
    let total = byte_len(s);
    let mut offsets: Vec<usize> = Vec::new();
    let mut at: usize = 0;
    proof {
        lemma_byte_offsets_ordered(s@);
    }
    while at < total
        invariant
            at <= total == encode_utf8(s@).len(),
            offsets@.len() <= s@.len(),
            forall|j: int| 0 <= j < offsets@.len() ==> offsets@[j] == #[trigger] byte_offset(s@, j),
            forall|j: int|
                0 <= j < s@.len() ==> (#[trigger] byte_offset(s@, j) < at <==> j < offsets@.len()),
        decreases total - at,
    {
        proof {
            lemma_byte_offsets_ordered(s@);
        }
        if s.as_str().is_char_boundary(at) {
            proof {
                let k = lemma_boundary_is_byte_offset(s@, at as int);
                assert(k < s@.len());
                assert(k == offsets@.len()) by {
                    if k > offsets@.len() {
                        assert(byte_offset(s@, offsets@.len() as int) < byte_offset(s@, k));
                    }
                }
            }
            offsets.push(at);
        } else {
            proof {
                assert forall|j: int| 0 <= j < s@.len() implies #[trigger] byte_offset(s@, j)
                    != at by {
                    lemma_byte_offset_is_boundary(s@, j);
                }
            }
        }
        at += 1;
    }
    proof {
        lemma_byte_offsets_ordered(s@);
        if offsets@.len() < s@.len() {
            assert(byte_offset(s@, offsets@.len() as int) < byte_offset(s@, s@.len() as int));
        }
    }
    offsets
}

} // verus!
