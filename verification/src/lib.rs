//! A minimal regex-driven tokenizer.
//!
//! A `RegexTokenizer` is built once from a pattern string and then applied
//! to any number of input texts. Each call to `tokenize` performs a single
//! left-to-right, non-overlapping scan and returns the matches in order,
//! each as a `Token` carrying the matched text and its byte-offset span
//! `[start, end)` in the input. Spans never overlap and come in strictly
//! increasing order of start offset; unmatched stretches of the input are
//! silently dropped. Match finding itself is delegated to the `regex`
//! crate behind the trusted boundary in [`engine`].

use vstd::prelude::*;

pub mod engine;

verus! {

use vstd::utf8::encode_utf8;
use vstd::utf8::encode_utf8_decode_utf8;
use crate::engine::Matcher;
use crate::engine::regex_accepts;
use crate::engine::regex_match_spans;
use crate::engine::spans_well_formed;
use crate::engine::span_in_bounds;
use crate::engine::match_reported;

/// One matched span of input text: the matched substring, copied out of the
/// input, and its byte offsets in the original input (`start` inclusive,
/// `end` exclusive).
#[derive(Debug)]
pub struct Token {
    /// The text content of the token.
    pub text: String,
    /// Byte offset of the first byte of the match in the original input.
    pub start: usize,
    /// Byte offset one past the last byte of the match.
    pub end: usize,
}

/// `t` reports the span `sp` of a text whose UTF-8 bytes are `text_bytes`:
/// its offsets are the span's, and its text is byte-exact the slice
/// `text_bytes[sp.0 .. sp.1]`.
pub open spec fn token_is_span_of(t: Token, text_bytes: Seq<u8>, sp: (int, int)) -> bool {
    &&& t.start as int == sp.0
    &&& t.end as int == sp.1
    &&& encode_utf8(t.text@) == text_bytes.subrange(sp.0, sp.1)
}

/// The tokens report exactly the given spans, in order.
pub open spec fn tokens_match_spans(
    tokens: Seq<Token>,
    text_bytes: Seq<u8>,
    spans: Seq<(int, int)>,
) -> bool {
    &&& tokens.len() == spans.len()
    &&& forall|i: int|
        0 <= i < tokens.len() ==> token_is_span_of(#[trigger] tokens[i], text_bytes, spans[i])
}

/// The spans one scan of `text` yields: none on empty input, else exactly
/// the matches the engine finds for `pattern`.
pub open spec fn scan_spans(pattern: Seq<char>, text: Seq<char>) -> Seq<(int, int)> {
    if text.len() == 0 {
        Seq::empty()
    } else {
        regex_match_spans(pattern, text)
    }
}

impl Token {
    /// Creates a new token with the given text and position.
    pub fn new(text: String, start: usize, end: usize) -> (t: Token)
        ensures
            t.text == text,
            t.start == start,
            t.end == end,
    {
        Token { text, start, end }
    }
}

/// The failure of building a tokenizer: the supplied pattern string is not
/// a valid expression in the engine's dialect. Raised only at construction;
/// tokenizing itself never fails.
#[derive(Debug)]
pub struct PatternError {
    /// The engine's description of what is wrong with the pattern.
    pub message: String,
}

/// A tokenizer that uses a regular expression to extract tokens from text.
/// Immutable once constructed: it holds no scan-local state, so one
/// instance may be applied to many inputs.
#[derive(Debug)]
pub struct RegexTokenizer {
    matcher: Matcher,
}

impl RegexTokenizer {
    /// The pattern this tokenizer was built from.
    pub closed spec fn pattern(&self) -> Seq<char> {
        self.matcher.pattern()
    }

    /// Creates a new tokenizer with the given regex pattern.
    ///
    /// Construction fails with a `PatternError`, and yields no tokenizer,
    /// exactly when the engine rejects the pattern.
    pub fn new(pattern: &str) -> (r: Result<RegexTokenizer, PatternError>)
        ensures
            r is Ok <==> regex_accepts(pattern@),
            r matches Ok(t) ==> t.pattern() == pattern@,
    {
        match Matcher::compile(pattern) {
            Ok(matcher) => Ok(RegexTokenizer { matcher }),
            Err(message) => Err(PatternError { message }),
        }
    }

    /// Tokenizes the input text using the configured regex pattern.
    ///
    /// Performs one left-to-right, non-overlapping scan and returns one
    /// token per match, in scan order: the tokens report exactly the spans
    /// of `scan_spans(self.pattern(), text@)`, which are within bounds,
    /// non-overlapping and strictly increasing. Empty input yields an empty
    /// sequence; so does an input in which the pattern has no match.
    pub fn tokenize(&self, text: &str) -> (tokens: Vec<Token>)
        ensures
            tokens_match_spans(tokens@, encode_utf8(text@), scan_spans(self.pattern(), text@)),
            spans_well_formed(scan_spans(self.pattern(), text@), encode_utf8(text@).len() as int),
            text@.len() == 0 ==> tokens@.len() == 0,
    {
        if text.is_empty() {
            return Vec::new();
        }
        let matches = self.matcher.find_matches(text);
        let ghost spans = scan_spans(self.pattern(), text@);
        let mut tokens: Vec<Token> = Vec::new();
        let mut i: usize = 0;
        while i < matches.len()
            invariant
                i <= matches.len(),
                matches@.len() == spans.len(),
                forall|j: int|
                    0 <= j < matches@.len() ==> match_reported(
                        #[trigger] matches@[j],
                        encode_utf8(text@),
                        spans[j],
                    ),
                tokens@.len() == i,
                forall|j: int|
                    0 <= j < i ==> token_is_span_of(#[trigger] tokens@[j], encode_utf8(text@), spans[j]),
            decreases matches@.len() - i,
        {
            let m_text = matches[i].0.clone();
            let m_start = matches[i].1;
            let m_end = matches[i].2;
            tokens.push(Token::new(m_text, m_start, m_end));
            i = i + 1;
        }
        tokens
    }
}

/// Non-overlap and ordering: in any token sequence that reports well-formed
/// spans — as every result of `tokenize` does — every token's span lies
/// within it (`start <= end`), consecutive tokens never overlap
/// (`tokens[i].end <= tokens[i + 1].start`), and start offsets strictly
/// increase.
pub proof fn lemma_tokens_nonoverlap_ordered(
    tokens: Seq<Token>,
    text_bytes: Seq<u8>,
    spans: Seq<(int, int)>,
)
    requires
        tokens_match_spans(tokens, text_bytes, spans),
        spans_well_formed(spans, text_bytes.len() as int),
    ensures
        forall|i: int| 0 <= i < tokens.len() ==> (#[trigger] tokens[i]).start <= tokens[i].end,
        forall|i: int|
            0 <= i && i + 1 < tokens.len() ==> (#[trigger] tokens[i]).end <= tokens[i + 1].start,
        forall|i: int|
            0 <= i && i + 1 < tokens.len() ==> (#[trigger] tokens[i]).start < tokens[i + 1].start,
{
    assert forall|i: int| 0 <= i < tokens.len() implies (#[trigger] tokens[i]).start
        <= tokens[i].end by {
        assert(token_is_span_of(tokens[i], text_bytes, spans[i]));
        assert(span_in_bounds(spans[i], text_bytes.len() as int));
    }
    assert forall|i: int| 0 <= i && i + 1 < tokens.len() implies (#[trigger] tokens[i]).end
        <= tokens[i + 1].start && tokens[i].start < tokens[i + 1].start by {
        assert(token_is_span_of(tokens[i], text_bytes, spans[i]));
        assert(token_is_span_of(tokens[i + 1], text_bytes, spans[i + 1]));
        assert(spans[i].1 <= spans[i + 1].0 && spans[i].0 < spans[i + 1].0);
    }
}

/// Span correctness: in any token sequence that reports well-formed spans —
/// as every result of `tokenize` does — each token's text is byte-exact the
/// input's bytes `[start, end)`, and `end - start` is the byte length of
/// that text.
pub proof fn lemma_token_spans_correct(
    tokens: Seq<Token>,
    text_bytes: Seq<u8>,
    spans: Seq<(int, int)>,
)
    requires
        tokens_match_spans(tokens, text_bytes, spans),
        spans_well_formed(spans, text_bytes.len() as int),
    ensures
        forall|i: int|
            0 <= i < tokens.len() ==> encode_utf8((#[trigger] tokens[i]).text@)
                == text_bytes.subrange(tokens[i].start as int, tokens[i].end as int),
        forall|i: int|
            0 <= i < tokens.len() ==> (#[trigger] tokens[i]).end - tokens[i].start
                == encode_utf8(tokens[i].text@).len(),
{
    assert forall|i: int| 0 <= i < tokens.len() implies encode_utf8(
        (#[trigger] tokens[i]).text@,
    ) == text_bytes.subrange(tokens[i].start as int, tokens[i].end as int) && tokens[i].end
        - tokens[i].start == encode_utf8(tokens[i].text@).len() by {
        assert(token_is_span_of(tokens[i], text_bytes, spans[i]));
        assert(span_in_bounds(spans[i], text_bytes.len() as int));
    }
}

/// No match, no tokens: an input in which the engine finds no match for the
/// pattern yields an empty token sequence — tokenizing never fails, it
/// merely returns nothing.
pub proof fn lemma_no_match_no_tokens(
    tokens: Seq<Token>,
    text_bytes: Seq<u8>,
    spans: Seq<(int, int)>,
)
    requires
        tokens_match_spans(tokens, text_bytes, spans),
        spans.len() == 0,
    ensures
        tokens.len() == 0,
{
}

/// Determinism: any two token sequences that report the same spans of the
/// same text — as two calls of `tokenize` with the same tokenizer and the
/// same input do — are identical: same length, and tokens equal position by
/// position in text, start and end.
pub proof fn lemma_tokenize_deterministic(
    a: Seq<Token>,
    b: Seq<Token>,
    text_bytes: Seq<u8>,
    spans: Seq<(int, int)>,
)
    requires
        tokens_match_spans(a, text_bytes, spans),
        tokens_match_spans(b, text_bytes, spans),
    ensures
        a.len() == b.len(),
        forall|i: int|
            0 <= i < a.len() ==> (#[trigger] a[i]).start == b[i].start && a[i].end == b[i].end
                && a[i].text@ == b[i].text@,
{
    assert forall|i: int| 0 <= i < a.len() implies (#[trigger] a[i]).start == b[i].start
        && a[i].end == b[i].end && a[i].text@ == b[i].text@ by {
        assert(token_is_span_of(a[i], text_bytes, spans[i]));
        assert(token_is_span_of(b[i], text_bytes, spans[i]));
        encode_utf8_decode_utf8(a[i].text@);
        encode_utf8_decode_utf8(b[i].text@);
    }
}

} // verus!
