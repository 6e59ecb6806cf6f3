//! Nul-terminated byte buffers: locating the terminator and taking the
//! text content that stands before it.

use vstd::prelude::*;

verus! {

/// Index of the first terminator (zero) byte in `bytes`; `bytes.len()` when
/// there is none.
pub open spec fn first_nul(bytes: Seq<u8>) -> int
    decreases bytes.len(),
{
    if bytes.len() == 0 {
        0
    } else if bytes[0] == 0u8 {
        0
    } else {
        1 + first_nul(bytes.drop_first())
    }
}

/// The bytes of `buf` that stand before its first terminator: the text of a
/// nul-terminated buffer.
pub open spec fn content_of(buf: Seq<u8>) -> Seq<u8> {
    buf.take(first_nul(buf))
}

/// The first terminator lies where the first zero byte lies: every byte
/// before it is non-zero, it never points past the end of the buffer, and
/// it points at a zero byte whenever the buffer holds one.
pub proof fn lemma_first_nul(bytes: Seq<u8>)
    ensures
        0 <= first_nul(bytes) <= bytes.len(),
        first_nul(bytes) < bytes.len() ==> bytes[first_nul(bytes)] == 0u8,
        forall|j: int| 0 <= j < first_nul(bytes) ==> bytes[j] != 0u8,
        bytes.contains(0u8) ==> first_nul(bytes) < bytes.len(),
    decreases bytes.len(),
{
    if bytes.len() == 0 {
    } else if bytes[0] == 0u8 {
    } else {
        lemma_first_nul(bytes.drop_first());
        assert forall|j: int| 0 <= j < first_nul(bytes) implies bytes[j] != 0u8 by {
            if j > 0 {
                assert(bytes.drop_first()[j - 1] == bytes[j]);
            }
        }
        if bytes.contains(0u8) {
            let k = choose|k: int| 0 <= k < bytes.len() && bytes[k] == 0u8;
            assert(bytes.drop_first()[k - 1] == 0u8);
            assert(bytes.drop_first().contains(0u8));
        }
    }
}

/// A position whose byte is zero, with only non-zero bytes before it, is
/// the first terminator.
pub proof fn lemma_first_nul_at(bytes: Seq<u8>, i: int)
    requires
        0 <= i < bytes.len(),
        bytes[i] == 0u8,
        forall|j: int| 0 <= j < i ==> bytes[j] != 0u8,
    ensures
        first_nul(bytes) == i,
    decreases i,
{
    if i > 0 {
        assert(bytes.drop_first()[i - 1] == bytes[i]);
        assert forall|j: int| 0 <= j < i - 1 implies bytes.drop_first()[j] != 0u8 by {
            assert(bytes.drop_first()[j] == bytes[j + 1]);
        }
        lemma_first_nul_at(bytes.drop_first(), i - 1);
    }
}

/// Appending one terminator to terminator-free bytes puts the first
/// terminator exactly at the former end, so the content of the new buffer
/// is the original bytes.
pub proof fn lemma_content_of_terminated(text: Seq<u8>)
    requires
        !text.contains(0u8),
    ensures
        first_nul(text.push(0u8)) == text.len(),
        content_of(text.push(0u8)) == text,
{
    let buf = text.push(0u8);
    assert(buf[text.len() as int] == 0u8);
    assert forall|j: int| 0 <= j < text.len() implies buf[j] != 0u8 by {
        assert(buf[j] == text[j]);
    }
    lemma_first_nul_at(buf, text.len() as int);
    assert(content_of(buf) =~= text);
}

/// The bytes of `buf` before its first terminator, as a fresh buffer.
pub fn content_before_nul(buf: &Vec<u8>) -> (r: Vec<u8>)
    requires
        buf@.contains(0u8),
    ensures
        r@ == content_of(buf@),
{
    proof {
        lemma_first_nul(buf@);
    }
    let n = buf.len();
    let mut text: Vec<u8> = Vec::new();
    let mut i: usize = 0;
    while buf[i] != 0u8
        invariant
            n == buf@.len(),
            0 <= i <= first_nul(buf@),
            first_nul(buf@) < buf@.len(),
            buf@[first_nul(buf@)] == 0u8,
            forall|j: int| 0 <= j < first_nul(buf@) ==> buf@[j] != 0u8,
            text@ == buf@.take(i as int),
        decreases first_nul(buf@) - i,
    {
        assert(i < first_nul(buf@));
        text.push(buf[i]);
        assert(text@ =~= buf@.take(i + 1));
        i = i + 1;
    }
    assert(i == first_nul(buf@));
    text
}

} // verus!
