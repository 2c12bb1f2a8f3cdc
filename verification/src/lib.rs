//! A linguistic text transcoder with a static-site toolkit around it.
//!
//! The heart of the crate is a bidirectional mapping between short ASCII
//! codes (written `{e}`, `{U}`, `{4}` in running text) and single Unicode
//! phonetic symbols. An [`en::Encoder`] scans a character stream and
//! resolves `{code}` blocks against the table; a [`de::Decoder`] maps
//! graphemes back to their codes. Around the transcoder sit small verified
//! pieces of a static-site pipeline: page splitting, heading slugs and
//! section bookkeeping, text escaping, and transcription styling.

use vstd::prelude::*;

pub mod config;
pub mod de;
pub mod en;
pub mod function;
pub mod laws;
pub mod page;
pub mod raw;
pub mod slugify;
pub mod table;
pub mod to_html;
pub mod transc;

verus! {

use crate::de::{decode_run, graphemes_of, Decoder, DecodingError, DecodingErrorView};
use crate::en::{
    encode_full, encode_run, finish_state, initial_model, Encoder, EncodingError,
    EncodingErrorView,
};
use crate::table::build_table;

/// What one-shot encoding of a text yields: the table's own failure when
/// it cannot be built, otherwise the scanner's verdict on the text.
pub open spec fn encode_text_spec(s: Seq<char>) -> Result<Seq<char>, EncodingErrorView> {
    match build_table(crate::raw::raw_table_spec()) {
        Err(e) => Err(EncodingErrorView::TableInit(e)),
        Ok(t) => encode_full(t, s),
    }
}

/// What one-shot decoding of a text yields: the table's own failure when
/// it cannot be built, otherwise each grapheme's decoding in order.
pub open spec fn decode_text_spec(s: Seq<char>) -> Result<Seq<char>, DecodingErrorView> {
    match build_table(crate::raw::raw_table_spec()) {
        Err(e) => Err(DecodingErrorView::TableInit(e)),
        Ok(t) => Ok(decode_run(t, graphemes_of(s))),
    }
}

/// One-shot encode into a freshly allocated string.
pub fn encode(input: &str) -> (r: Result<String, EncodingError>)
    ensures
        match encode_text_spec(input@) {
            Ok(o) => r matches Ok(s) && s@ == o,
            Err(e) => r matches Err(err) && err@ == e,
        },
{
    let mut buf = String::new();
    match encode_to(input, &mut buf) {
        Ok(()) => Ok(buf),
        Err(e) => Err(e),
    }
}

/// Encode into a caller-provided sink. On failure the sink still receives
/// everything emitted before the failure was found.
pub fn encode_to(input: &str, target: &mut String) -> (r: Result<(), EncodingError>)
    ensures
        match build_table(crate::raw::raw_table_spec()) {
            Err(e) => r matches Err(err) && err@ == EncodingErrorView::TableInit(e)
                && final(target)@ == old(target)@,
            Ok(t) => ({
                let run = encode_run(t, initial_model(Seq::empty()), input@);
                final(target)@ == old(target)@ + run.0.out && match run.1 {
                    Some(e) => r matches Err(err) && err@ == e,
                    None => match finish_state(run.0) {
                        Some(e) => r matches Err(err) && err@ == e,
                        None => r is Ok,
                    },
                }
            }),
        },
{
    let mut encoder = match Encoder::new(String::new()) {
        Ok(enc) => enc,
        Err(e) => {
            return Err(e);
        },
    };
    let result = match encoder.push_str(input) {
        Ok(()) => encoder.finish(),
        Err(e) => Err(e),
    };
    let out = encoder.into_target();
    append_str(target, out.as_str());
    result
}

/// One-shot decode into a freshly allocated string.
pub fn decode(input: &str) -> (r: Result<String, DecodingError>)
    ensures
        match decode_text_spec(input@) {
            Ok(o) => r matches Ok(s) && s@ == o,
            Err(e) => r matches Err(err) && err@ == e,
        },
{
    let mut buf = String::new();
    match decode_to(input, &mut buf) {
        Ok(()) => Ok(buf),
        Err(e) => Err(e),
    }
}

/// Decode into a caller-provided sink.
pub fn decode_to(input: &str, target: &mut String) -> (r: Result<(), DecodingError>)
    ensures
        match decode_text_spec(input@) {
            Ok(o) => r is Ok && final(target)@ == old(target)@ + o,
            Err(e) => r matches Err(err) && err@ == e && final(target)@ == old(target)@,
        },
{
    let mut decoder = match Decoder::new(String::new()) {
        Ok(dec) => dec,
        Err(e) => {
            return Err(e);
        },
    };
    let result = decoder.push_str(input);
    let out = decoder.into_target();
    append_str(target, out.as_str());
    result
}

/// Number of bytes the UTF-8 encoding of `c` occupies.
pub open spec fn char_utf8_len(c: char) -> nat {
    if (c as u32) < 0x80 {
        1
    } else if (c as u32) < 0x800 {
        2
    } else if (c as u32) < 0x10000 {
        3
    } else {
        4
    }
}

/// Number of bytes the UTF-8 encoding of `s` occupies.
pub open spec fn utf8_len(s: Seq<char>) -> nat
    decreases s.len(),
{
    if s.len() == 0 {
        0
    } else {
        char_utf8_len(s[0]) + utf8_len(s.drop_first())
    }
}

/// Appending one character adds exactly its encoded length.
pub proof fn lemma_utf8_len_push(s: Seq<char>, c: char)
    ensures
        utf8_len(s.push(c)) == utf8_len(s) + char_utf8_len(c),
    decreases s.len(),
{
    if s.len() == 0 {
        assert(s.push(c)[0] == c);
        assert(s.push(c).drop_first() =~= Seq::empty());
        assert(utf8_len(Seq::<char>::empty()) == 0);
    } else {
        assert(s.push(c)[0] == s[0]);
        assert(s.push(c).drop_first() =~= s.drop_first().push(c));
        lemma_utf8_len_push(s.drop_first(), c);
    }
}

/// Relies on `String::push`: appends one character to the string.
#[verifier::external_body]
pub(crate) fn push_char(s: &mut String, c: char)
    ensures
        final(s)@ == old(s)@.push(c),
    no_unwind
{
    s.push(c);
}

/// Relies on `String::push_str`: appends a string slice to the string.
#[verifier::external_body]
pub(crate) fn append_str(s: &mut String, other: &str)
    ensures
        final(s)@ == old(s)@ + other@,
    no_unwind
{
    s.push_str(other);
}

/// The abstract byte length coincides with the length of the UTF-8
/// encoding of the sequence.
pub proof fn lemma_utf8_len_is_byte_len(s: Seq<char>)
    ensures
        utf8_len(s) == vstd::utf8::encode_utf8(s).len(),
    decreases s.len(),
{
    if s.len() > 0 {
        lemma_utf8_len_is_byte_len(s.drop_first());
        vstd::utf8::char_is_scalar(s[0]);
        assert(vstd::utf8::encode_scalar(s[0] as u32).len() == char_utf8_len(s[0]));
    }
}

/// Byte length of a string slice, as the abstract UTF-8 length of its
/// characters.
pub fn str_byte_len(s: &str) -> (n: usize)
    ensures
        n == utf8_len(s@),
{
    proof {
        lemma_utf8_len_is_byte_len(s@);
    }
    let b = s.as_bytes();
    b.len()
}

/// Byte length of one character's UTF-8 encoding, computed from its
/// scalar value exactly as the encoding scheme defines it.
pub fn char_len_utf8(c: char) -> (n: usize)
    ensures
        n == char_utf8_len(c),
{
    let v = c as u32;
    if v < 0x80 {
        1
    } else if v < 0x800 {
        2
    } else if v < 0x10000 {
        3
    } else {
        4
    }
}

} // verus!
