//! The capability boundary around the regular-expression engine.
//!
//! The tokenizer delegates pattern compilation and match finding to the
//! `regex` crate. This module holds the only items whose contracts are
//! trusted rather than proved: two names for what the engine computes
//! (`regex_accepts` and `regex_match_spans`) and the two wrappers that
//! call into the engine.

use vstd::prelude::*;

verus! {

use vstd::utf8::encode_utf8;

/// Declares the outside type `regex::Regex`, the engine's compiled,
/// reusable representation of a pattern. Opaque to verification.
#[verifier::external_type_specification]
#[verifier::external_body]
pub struct ExRegex(regex::Regex);

/// Whether the engine accepts `pattern`: `regex::Regex::new` on it returns
/// `Ok`. This holds exactly when the pattern is a syntactically valid
/// expression in the engine's dialect whose compiled form fits the engine's
/// default size limit; it depends on the pattern alone.
pub uninterp spec fn regex_accepts(pattern: Seq<char>) -> bool;

/// The byte-offset spans `[start, end)` of the successive non-overlapping
/// matches that the engine finds for `pattern` in `text`, in the order the
/// scan yields them. A function of the pattern and the text alone; the
/// dialect's own matching semantics are not restated here.
pub uninterp spec fn regex_match_spans(pattern: Seq<char>, text: Seq<char>) -> Seq<(int, int)>;

/// `sp` is a well-formed half-open byte span of a text of `n` bytes.
pub open spec fn span_in_bounds(sp: (int, int), n: int) -> bool {
    0 <= sp.0 <= sp.1 <= n
}

/// What the engine guarantees of a scan's spans over a text of `n` bytes:
/// every span lies within the text, and the spans are non-overlapping and
/// yielded in strictly increasing order of start offset.
pub open spec fn spans_well_formed(spans: Seq<(int, int)>, n: int) -> bool {
    &&& forall|i: int| 0 <= i < spans.len() ==> span_in_bounds(#[trigger] spans[i], n)
    &&& forall|i: int, j: int|
        0 <= i < j < spans.len() ==> (#[trigger] spans[i]).1 <= (#[trigger] spans[j]).0
            && spans[i].0 < spans[j].0
}

/// The triple `m` (matched text, start, end) reports the span `sp` of a text
/// whose UTF-8 bytes are `text_bytes`: the offsets agree and the matched
/// text is byte-exact the slice `text_bytes[sp.0 .. sp.1]`.
pub open spec fn match_reported(m: (String, usize, usize), text_bytes: Seq<u8>, sp: (int, int)) -> bool {
    &&& m.1 as int == sp.0
    &&& m.2 as int == sp.1
    &&& encode_utf8(m.0@) == text_bytes.subrange(sp.0, sp.1)
}

/// The triples `ms` are one per match the engine finds for `pattern` in
/// `text`, in order, each reporting its span exactly; and those spans are
/// well formed over the text's bytes.
pub open spec fn engine_scan_reported(
    ms: Seq<(String, usize, usize)>,
    pattern: Seq<char>,
    text: Seq<char>,
) -> bool {
    let spans = regex_match_spans(pattern, text);
    &&& ms.len() == spans.len()
    &&& forall|i: int|
        0 <= i < ms.len() ==> match_reported(#[trigger] ms[i], encode_utf8(text), spans[i])
    &&& spans_well_formed(spans, encode_utf8(text).len() as int)
}

/// A compiled matcher: the engine's compiled pattern together with the
/// pattern string it was compiled from.
///
/// Invariant of this module: `regex` is the engine's compilation of
/// `pattern`. Both fields are private and `compile` is the only
/// constructor, so every `Matcher` satisfies it.
#[derive(Debug)]
pub(crate) struct Matcher {
    regex: regex::Regex,
    pattern: String,
}

impl Matcher {
    /// The pattern this matcher was compiled from.
    pub(crate) closed spec fn pattern(&self) -> Seq<char> {
        self.pattern@
    }

    /// Relies on `regex::Regex::new`: returns `Ok` exactly when the engine
    /// accepts the pattern, and `Err` with the engine's own description
    /// otherwise. The result depends on the pattern alone.
    #[verifier::external_body]
    pub(crate) fn compile(pattern: &str) -> (r: Result<Matcher, String>)
        ensures
            r is Ok <==> regex_accepts(pattern@),
            r matches Ok(m) ==> m.pattern() == pattern@,
    {
        match regex::Regex::new(pattern) {
            Ok(regex) => Ok(Matcher { regex, pattern: pattern.to_string() }),
            Err(e) => Err(e.to_string()),
        }
    }

    /// Relies on `regex::Regex::find_iter` and `regex::Match`: the iterator
    /// yields the successive non-overlapping matches in order and always
    /// advances; each match has byte offsets `start <= end` within the
    /// haystack, and `Match::as_str` is exactly the slice of the haystack
    /// between them.
    #[verifier::external_body]
    pub(crate) fn find_matches(&self, text: &str) -> (ms: Vec<(String, usize, usize)>)
        ensures
            ms@.len() == regex_match_spans(self.pattern(), text@).len(),
            engine_scan_reported(ms@, self.pattern(), text@),
    {
        self.regex
            .find_iter(text)
            .map(|m| (m.as_str().to_string(), m.start(), m.end()))
            .collect()
    }
}

} // verus!
