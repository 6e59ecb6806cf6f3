//! The boundary marshaller: decoding an incoming nul-terminated buffer into
//! validated text, and encoding the formatting engine's answer back into a
//! nul-terminated buffer.
//!
//! Every failure collapses to the single answer "no output": a missing
//! buffer, text that is not well-formed UTF-8, an engine that declined the
//! source, or an engine answer that carries a terminator inside itself.

use vstd::prelude::*;
use vstd::utf8::valid_utf8;
use crate::cbuf::content_of;
use crate::cbuf::content_before_nul;
use crate::cbuf::lemma_content_of_terminated;
use crate::encoding::is_valid_utf8;

verus! {

/// View of a possibly missing byte buffer.
pub open spec fn opt_bytes(input: Option<&Vec<u8>>) -> Option<Seq<u8>> {
    match input {
        Option::Some(b) => Option::Some(b@),
        Option::None => Option::None,
    }
}

/// View of a possibly missing owned byte buffer.
pub open spec fn opt_owned_bytes(input: Option<Vec<u8>>) -> Option<Seq<u8>> {
    match input {
        Option::Some(b) => Option::Some(b@),
        Option::None => Option::None,
    }
}

/// What decoding an incoming buffer yields: nothing for a missing buffer,
/// nothing for text that is not well-formed UTF-8, and otherwise the bytes
/// of the buffer before its first terminator.
pub open spec fn decode_spec(input: Option<Seq<u8>>) -> Option<Seq<u8>> {
    match input {
        Option::None => Option::None,
        Option::Some(buf) => {
            if valid_utf8(content_of(buf)) {
                Option::Some(content_of(buf))
            } else {
                Option::None
            }
        },
    }
}

/// What encoding the engine's answer yields: nothing when the engine
/// reported failure, nothing when the formatted text carries a terminator
/// inside itself, and otherwise the text with one terminator appended.
pub open spec fn encode_spec(answer: Option<Seq<u8>>) -> Option<Seq<u8>> {
    match answer {
        Option::None => Option::None,
        Option::Some(text) => {
            if text.contains(0u8) {
                Option::None
            } else {
                Option::Some(text.push(0u8))
            }
        },
    }
}

/// The outcome of the whole format operation, given the incoming buffer and
/// the engine's answer to the decoded text: no output unless decoding
/// succeeded, and then whatever encoding the answer yields.
pub open spec fn boundary_spec(input: Option<Seq<u8>>, answer: Option<Seq<u8>>) -> Option<
    Seq<u8>,
> {
    match decode_spec(input) {
        Option::None => Option::None,
        Option::Some(_) => encode_spec(answer),
    }
}

/// Decode an incoming buffer: take the bytes before the first terminator
/// and accept them only as well-formed UTF-8.
pub fn decode_input(input: Option<&Vec<u8>>) -> (r: Option<Vec<u8>>)
    requires
        input matches Option::Some(b) ==> b@.contains(0u8),
    ensures
        opt_owned_bytes(r) == decode_spec(opt_bytes(input)),
{
    match input {
        Option::None => Option::None,
        Option::Some(buf) => {
            let text = content_before_nul(buf);
            if is_valid_utf8(&text) {
                Option::Some(text)
            } else {
                Option::None
            }
        },
    }
}

/// Whether `text` carries a terminator (zero) byte anywhere.
pub fn contains_nul(text: &Vec<u8>) -> (r: bool)
    ensures
        r == text@.contains(0u8),
{
    let n = text.len();
    let mut i: usize = 0;
    while i < n
        invariant
            n == text@.len(),
            0 <= i <= n,
            forall|j: int| 0 <= j < i ==> text@[j] != 0u8,
        decreases n - i,
    {
        if text[i] == 0u8 {
            assert(text@[i as int] == 0u8);
            return true;
        }
        i = i + 1;
    }
    proof {
        if text@.contains(0u8) {
            let k = choose|k: int| 0 <= k < text@.len() && text@[k] == 0u8;
            assert(text@[k] != 0u8);
        }
    }
    false
}

/// Encode the engine's answer: decline a missing answer and one with a
/// terminator inside it, and append the terminator otherwise.
pub fn encode_output(answer: Option<Vec<u8>>) -> (r: Option<Vec<u8>>)
    ensures
        opt_owned_bytes(r) == encode_spec(opt_owned_bytes(answer)),
{
    match answer {
        Option::None => Option::None,
        Option::Some(text) => {
            if contains_nul(&text) {
                Option::None
            } else {
                let mut out = text;
                out.push(0u8);
                Option::Some(out)
            }
        },
    }
}

/// Law: a missing input buffer yields no output, whatever the engine would
/// have answered.
pub proof fn lemma_missing_input_yields_nothing(answer: Option<Seq<u8>>)
    ensures
        boundary_spec(Option::None, answer) == Option::<Seq<u8>>::None,
{
}

/// Law: a buffer whose text before the terminator is not well-formed UTF-8
/// yields no output, whatever the engine would have answered.
pub proof fn lemma_malformed_input_yields_nothing(buf: Seq<u8>, answer: Option<Seq<u8>>)
    requires
        !valid_utf8(content_of(buf)),
    ensures
        boundary_spec(Option::Some(buf), answer) == Option::<Seq<u8>>::None,
{
}

/// Law: when the engine reports failure, the format operation yields no
/// output, whatever the input buffer was.
pub proof fn lemma_engine_failure_yields_nothing(input: Option<Seq<u8>>)
    ensures
        boundary_spec(input, Option::None) == Option::<Seq<u8>>::None,
{
}

/// Law: for a present, nul-terminated buffer whose text is well-formed
/// UTF-8, and an engine answer that is well-formed UTF-8 with no terminator
/// inside it, the format operation hands the caller exactly that answer
/// followed by one terminator — a non-empty, nul-terminated buffer whose
/// own text is again well-formed UTF-8.
pub proof fn lemma_boundary_success(buf: Seq<u8>, answer: Seq<u8>)
    requires
        buf.contains(0u8),
        valid_utf8(content_of(buf)),
        valid_utf8(answer),
        !answer.contains(0u8),
    ensures
        boundary_spec(Option::Some(buf), Option::Some(answer)) == Option::Some(
            answer.push(0u8),
        ),
        answer.push(0u8).len() > 0,
        answer.push(0u8).last() == 0u8,
        content_of(answer.push(0u8)) == answer,
        valid_utf8(content_of(answer.push(0u8))),
{
    lemma_content_of_terminated(answer);
}

/// Law: when the engine leaves already-formatted text unchanged, sending a
/// buffer the format operation produced back through it reproduces that
/// buffer byte for byte: decoding the buffer yields the formatted text
/// again, and re-encoding the engine's unchanged answer yields the very
/// same buffer.
pub proof fn lemma_round_trip_stable(text: Seq<u8>)
    requires
        valid_utf8(text),
        !text.contains(0u8),
    ensures
        text.push(0u8).contains(0u8),
        decode_spec(Option::Some(text.push(0u8))) == Option::Some(text),
        encode_spec(Option::Some(text)) == Option::Some(text.push(0u8)),
        boundary_spec(Option::Some(text.push(0u8)), Option::Some(text)) == Option::Some(
            text.push(0u8),
        ),
{
    lemma_content_of_terminated(text);
    assert(text.push(0u8)[text.len() as int] == 0u8);
}

} // verus!
