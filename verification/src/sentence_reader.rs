//! Turning the text lines read from a port or a log file into sentences.
use vstd::prelude::*;
use vstd::string::StringSliceAdditionalSpecFns;
use vstd::utf8::{
    encode_utf8, encode_utf8_valid_utf8, is_char_boundary_iff_not_is_continuation_byte,
    is_char_boundary_start_end_of_seq,
};
use crate::nmea::{sentence_of, ParseError, ParsedSentence};
use crate::text::{trim_crlf, trimmed_len};

verus! {

/// A raw NMEA line paired with its parse result.
///
/// `raw` carries the line for logging; `parsed` holds the typed sentence or
/// the reason it failed.
#[derive(Debug)]
pub struct SentenceLine {
    /// The NMEA line as received, trimmed of `\r\n`.
    pub raw: String,
    /// `Ok(sentence)` on successful parse, `Err(ParseError)` for checksum
    /// failures, malformed fields, or unknown sentence types.
    pub parsed: Result<ParsedSentence, ParseError>,
}

impl Clone for SentenceLine {
    fn clone(&self) -> (r: Self)
        ensures
            r.raw@ == self.raw@,
            r.parsed.is_ok() == self.parsed.is_ok(),
            self.parsed matches Ok(s) ==> r.parsed matches Ok(t) && t.deep_view() == s.deep_view()
                && t.wf() == s.wf(),
    {
        SentenceLine {
            raw: self.raw.clone(),
            parsed: match &self.parsed {
                Ok(s) => Ok(s.clone()),
                Err(e) => Err(*e),
            },
        }
    }
}

impl SentenceLine {
    pub fn is_valid(&self) -> (r: bool)
        ensures
            r == self.parsed.is_ok(),
    {
        self.parsed.is_ok()
    }
}

/// The sentence line a text line read from the source makes: the text
/// without its trailing `\r` / `\n`, parsed. Empty lines make none.
pub fn sentence_line(text: &str) -> (r: Option<SentenceLine>)
    ensures
        r.is_none() <==> trim_crlf(text.spec_bytes()).len() == 0,
        r matches Some(l) ==> {
            &&& encode_utf8(l.raw@) == trim_crlf(text.spec_bytes())
            &&& l.parsed.is_ok() == sentence_of(trim_crlf(text.spec_bytes())).is_some()
            &&& l.parsed matches Ok(s) ==> Some(s.deep_view()) == sentence_of(
                trim_crlf(text.spec_bytes()),
            ) && s.wf()
        },
{
    let bytes = text.as_bytes();
    let n = trimmed_len(bytes);
    if n == 0 {
        return None;
    }
    proof {
        encode_utf8_valid_utf8(text@);
        is_char_boundary_start_end_of_seq(bytes@);
        if n < bytes@.len() {
            is_char_boundary_iff_not_is_continuation_byte(bytes@, n as int);
        }
    }
    let (head, _) = text.split_at(n);
    let raw = head.to_owned();
    let parsed = ParsedSentence::try_from_str(raw.as_str());
    Some(SentenceLine { raw, parsed })
}

/// A source of NMEA text lines (a serial port or a log file); the reading
/// itself is done by the caller, line by line, through [`SentenceReader::inner_mut`],
/// and each line read goes through [`sentence_line`].
pub struct SentenceReader<R> {
    inner: R,
}

impl<R> SentenceReader<R> {
    pub closed spec fn source(&self) -> R {
        self.inner
    }

    pub fn new(inner: R) -> (r: Self)
        ensures
            r.source() == inner,
    {
        SentenceReader { inner }
    }

    /// Consume the reader and return the underlying source.
    pub fn into_inner(self) -> (r: R)
        ensures
            r == self.source(),
    {
        self.inner
    }

    /// The underlying source, for reading the next line.
    pub fn inner_mut(&mut self) -> (r: &mut R)
        ensures
            *r == old(self).source(),
            final(self).source() == *final(r),
    {
        &mut self.inner
    }
}

} // verus!
