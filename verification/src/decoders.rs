//! Byte-to-text decoders behind a common interface.
//!
//! Each decoder consumes a byte slice and fills a caller-provided character
//! buffer.  The ASCII decoder transliterates byte for byte; the UTF-8 and
//! UTF-16 decoders are placeholders that consume nothing yet.

use vstd::prelude::*;

verus! {

use vstd::slice::SliceAdditionalExecFns;

#[derive(Debug)]
pub enum TextDecoderError {
    BytesLeftAfterFinish,
}

/// How many bytes a call consumed and how many characters it produced.
pub struct TextDecoderResult {
    pub consumed_bytes: usize,
    pub generated_chars: usize,
}

pub trait TextDecoder {
    /// What this decoder's `decode` guarantees: relates the input bytes and
    /// the output buffer before the call to the result and the buffer after
    /// it.
    spec fn decode_ens(
        &self,
        bytes: Seq<u8>,
        chars_in: Seq<char>,
        r: Result<TextDecoderResult, TextDecoderError>,
        chars_out: Seq<char>,
    ) -> bool;

    /// Decodes a prefix of `bytes` into a prefix of `chars`.
    fn decode(&self, bytes: &[u8], chars: &mut [char]) -> (r: Result<
        TextDecoderResult,
        TextDecoderError,
    >)
        ensures
            self.decode_ens(bytes@, old(chars)@, r, final(chars)@),
    ;

    /// Flushes whatever the decoder still holds; by default nothing is
    /// pending, nothing is produced and the buffer stays as it is.
    fn finish(&self, chars: &mut [char]) -> (r: Result<TextDecoderResult, TextDecoderError>)
        ensures
            r matches Ok(t) && t.consumed_bytes == 0 && t.generated_chars == 0,
            final(chars)@ == old(chars)@,
    {
        Ok(TextDecoderResult { consumed_bytes: 0, generated_chars: 0 })
    }
}

/// Placeholder UTF-8 decoder: consumes nothing and produces nothing.
pub struct UTF8Decoder {}

impl TextDecoder for UTF8Decoder {
    open spec fn decode_ens(
        &self,
        bytes: Seq<u8>,
        chars_in: Seq<char>,
        r: Result<TextDecoderResult, TextDecoderError>,
        chars_out: Seq<char>,
    ) -> bool {
        &&& r matches Ok(t) && t.consumed_bytes == 0 && t.generated_chars == 0
        &&& chars_out == chars_in
    }

    fn decode(&self, bytes: &[u8], chars: &mut [char]) -> (r: Result<
        TextDecoderResult,
        TextDecoderError,
    >) {
        Ok(TextDecoderResult { consumed_bytes: 0, generated_chars: 0 })
    }
}

/// Placeholder UTF-16 little-endian decoder: consumes nothing and produces
/// nothing.
pub struct UTF16LEDecoder {}

impl TextDecoder for UTF16LEDecoder {
    open spec fn decode_ens(
        &self,
        bytes: Seq<u8>,
        chars_in: Seq<char>,
        r: Result<TextDecoderResult, TextDecoderError>,
        chars_out: Seq<char>,
    ) -> bool {
        &&& r matches Ok(t) && t.consumed_bytes == 0 && t.generated_chars == 0
        &&& chars_out == chars_in
    }

    fn decode(&self, bytes: &[u8], chars: &mut [char]) -> (r: Result<
        TextDecoderResult,
        TextDecoderError,
    >) {
        Ok(TextDecoderResult { consumed_bytes: 0, generated_chars: 0 })
    }
}

/// Placeholder UTF-16 big-endian decoder: consumes nothing and produces
/// nothing.
pub struct UTF16BEDecoder {}

impl TextDecoder for UTF16BEDecoder {
    open spec fn decode_ens(
        &self,
        bytes: Seq<u8>,
        chars_in: Seq<char>,
        r: Result<TextDecoderResult, TextDecoderError>,
        chars_out: Seq<char>,
    ) -> bool {
        &&& r matches Ok(t) && t.consumed_bytes == 0 && t.generated_chars == 0
        &&& chars_out == chars_in
    }

    fn decode(&self, bytes: &[u8], chars: &mut [char]) -> (r: Result<
        TextDecoderResult,
        TextDecoderError,
    >) {
        Ok(TextDecoderResult { consumed_bytes: 0, generated_chars: 0 })
    }
}

/// Decoder that reads each byte as one character.
pub struct ASCIIDecoder {}

impl ASCIIDecoder {
    pub fn new() -> (r: ASCIIDecoder) {
        ASCIIDecoder {  }
    }
}

impl TextDecoder for ASCIIDecoder {
    /// Byte-for-byte transliteration of the longest prefix that fits the
    /// output buffer: `n = min(|bytes|, |chars|)` characters are written,
    /// the rest of the buffer is untouched.
    open spec fn decode_ens(
        &self,
        bytes: Seq<u8>,
        chars_in: Seq<char>,
        r: Result<TextDecoderResult, TextDecoderError>,
        chars_out: Seq<char>,
    ) -> bool {
        let n = if bytes.len() <= chars_in.len() {
            bytes.len() as int
        } else {
            chars_in.len() as int
        };
        &&& r matches Ok(t) && t.consumed_bytes == n && t.generated_chars == n
        &&& chars_out.len() == chars_in.len()
        &&& forall|i: int| 0 <= i < n ==> chars_out[i] == bytes[i] as char
        &&& forall|i: int| n <= i < chars_in.len() ==> chars_out[i] == chars_in[i]
    }

    fn decode(&self, bytes: &[u8], chars: &mut [char]) -> (r: Result<
        TextDecoderResult,
        TextDecoderError,
    >) {
        let mut i: usize = 0;
        while i < bytes.len() && i < chars.len()
            invariant
                i <= bytes@.len(),
                i <= chars@.len(),
                chars@.len() == old(chars)@.len(),
                forall|k: int| 0 <= k < i ==> chars@[k] == bytes@[k] as char,
                forall|k: int| i <= k < chars@.len() ==> chars@[k] == old(chars)@[k],
            decreases bytes@.len() - i,
        {
            let byte = bytes[i];
            chars[i] = byte as char;
            i = i + 1;
        }
        Ok(TextDecoderResult { consumed_bytes: i, generated_chars: i })
    }
}

} // verus!
