//! The static page: compacted once, served as is or compressed, each
//! compressed form computed at most once.

use vstd::prelude::*;
use vstd::string::*;
use vstd::utf8::encode_utf8;
use std::io::Write;
use crate::encoding::{Encoding, QualityItem, negotiate, negotiated};

verus! {

#[verifier::external_type_specification]
#[verifier::external_body]
pub struct ExRegexError(regex::Error);

/// Whether `regex::Regex::new` accepts `pattern`.
pub uninterp spec fn pattern_compiles(pattern: Seq<char>) -> bool;

/// What `regex::Regex::replace_all` makes of `text` with the compiled
/// `pattern` and `replacement`.
pub uninterp spec fn pattern_replaced(pattern: Seq<char>, text: Seq<char>, replacement: Seq<char>) -> Seq<char>;

/// What `flate2` gives for `data` through a gzip encoder at the best
/// compression level: the stream, or `None` where it reports an error.
pub uninterp spec fn gzip_outcome(data: Seq<u8>) -> Option<Seq<u8>>;

/// What `flate2` gives for `data` through a raw deflate encoder at the best
/// compression level: the stream, or `None` where it reports an error.
pub uninterp spec fn deflate_outcome(data: Seq<u8>) -> Option<Seq<u8>>;

/// Relies on regex::Regex::new, which compiles `pattern` or says why it
/// cannot, and on Regex::replace_all, which puts `replacement` in place of
/// each leftmost non-overlapping match in `text`.
#[verifier::external_body]
fn replace_matches(pattern: &str, text: &str, replacement: &str) -> (r: Result<String, regex::Error>)
    ensures
        r.is_ok() == pattern_compiles(pattern@),
        r matches Ok(s) ==> s@ == pattern_replaced(pattern@, text@, replacement@),
{
    match regex::Regex::new(pattern) {
        Ok(re) => Ok(re.replace_all(text, replacement).into_owned()),
        Err(e) => Err(e),
    }
}

/// Relies on flate2::write::GzEncoder at Compression::best(), writing into
/// a `Vec`; `None` where writing or finishing the stream reports an error.
/// The header it writes holds no time, so the outcome depends on `data` alone.
#[verifier::external_body]
fn gzip_best(data: &[u8]) -> (r: Option<Vec<u8>>)
    ensures
        r matches Some(c) ==> gzip_outcome(data@) == Some(c@),
        r is None ==> gzip_outcome(data@) is None,
{
    let mut enc = flate2::write::GzEncoder::new(Vec::new(), flate2::Compression::best());
    match enc.write_all(data) {
        Ok(()) => enc.finish().ok(),
        Err(_) => None,
    }
}

/// Relies on flate2::write::DeflateEncoder at Compression::best(), writing
/// into a `Vec`; `None` where writing or finishing the stream reports an error.
#[verifier::external_body]
fn deflate_best(data: &[u8]) -> (r: Option<Vec<u8>>)
    ensures
        r matches Some(c) ==> deflate_outcome(data@) == Some(c@),
        r is None ==> deflate_outcome(data@) is None,
{
    let mut enc = flate2::write::DeflateEncoder::new(Vec::new(), flate2::Compression::best());
    match enc.write_all(data) {
        Ok(()) => enc.finish().ok(),
        Err(_) => None,
    }
}

/// One compaction rule: every match of `pattern` in `text` replaced, or
/// `text` as it was where the pattern does not compile.
pub open spec fn rule_applied(text: Seq<char>, pattern: Seq<char>, replacement: Seq<char>) -> Seq<char> {
    if pattern_compiles(pattern) {
        pattern_replaced(pattern, text, replacement)
    } else {
        text
    }
}

/// The compaction of `s`: runs of whitespace become one space, then the
/// space between `>` and `<`, before `/>`, and around `{` and `}` goes.
pub open spec fn compacted(s: Seq<char>) -> Seq<char> {
    let a = rule_applied(s, "\\s+"@, " "@);
    let b = rule_applied(a, ">\\s<"@, "><"@);
    let c = rule_applied(b, "\\s/>"@, "/>"@);
    let d = rule_applied(c, "\\s?\\{\\s?"@, "{"@);
    rule_applied(d, "\\s?\\}\\s?"@, "}"@)
}

fn apply_rule(text: String, pattern: &str, replacement: &str) -> (r: String)
    ensures
        r@ == rule_applied(text@, pattern@, replacement@),
{
    match replace_matches(pattern, text.as_str(), replacement) {
        Ok(s) => s,
        Err(_) => text,
    }
}

/// Collapses the whitespace of an HTML page, see `compacted`.
pub fn compact(what: &str) -> (r: String)
    ensures
        r@ == compacted(what@),
{
    let a = apply_rule(what.to_owned(), "\\s+", " ");
    let b = apply_rule(a, ">\\s<", "><");
    let c = apply_rule(b, "\\s/>", "/>");
    let d = apply_rule(c, "\\s?\\{\\s?", "{");
    apply_rule(d, "\\s?\\}\\s?", "}")
}

/// A compressed form of the page: not yet computed, computed, or computed
/// without success (then the page goes out uncompressed).
pub enum Memo {
    Pending,
    Done(Vec<u8>),
    Failed,
}

/// What encoding `data` with `enc` gives: `data` itself for identity, else
/// the compressor's outcome.
pub open spec fn outcome(enc: Encoding, data: Seq<u8>) -> Option<Seq<u8>> {
    match enc {
        Encoding::Identity => Some(data),
        Encoding::Gzip => gzip_outcome(data),
        Encoding::Deflate => deflate_outcome(data),
    }
}

/// What goes out for `enc` over a page whose UTF-8 is `page`: the encoding
/// and its bytes where encoding succeeds, else the page itself uncompressed.
pub open spec fn served(enc: Encoding, page: Seq<u8>) -> (Encoding, Seq<u8>) {
    match outcome(enc, page) {
        Some(c) => (enc, c),
        None => (Encoding::Identity, page),
    }
}

/// The page, with its compressed forms kept once computed.
pub struct HtmlResponseHandler {
    raw_content: String,
    raw_bytes: Vec<u8>,
    gzip_content: Memo,
    deflate_content: Memo,
    gzip_runs: Ghost<nat>,
    deflate_runs: Ghost<nat>,
}

/// What one call of `encode` for `enc` does: the page stays; a form not
/// yet known is computed and kept, which counts one compression; a known
/// one is left as it was; other forms are untouched.
pub open spec fn encode_step(before: HtmlResponseHandler, after: HtmlResponseHandler, enc: Encoding) -> bool {
    &&& after.page() == before.page()
    &&& after.settled(enc)
    &&& before.settled(enc) ==> after == before
    &&& !before.settled(enc) ==> after.compressions(enc) == before.compressions(enc) + 1
    &&& forall|e: Encoding| e != enc ==> #[trigger] after.stored(e) == before.stored(e)
    &&& forall|e: Encoding| e != enc ==> #[trigger] after.settled(e) == before.settled(e)
    &&& forall|e: Encoding| e != enc ==> #[trigger] after.compressions(e) == before.compressions(e)
    &&& after.stored(enc) == outcome(enc, encode_utf8(after.page()))
}

/// Asking twice for the same compressed form computes it at most once,
/// and both calls leave the same bytes, which are the compression of the
/// page itself.
pub proof fn lemma_compression_memoized(
    h0: HtmlResponseHandler,
    h1: HtmlResponseHandler,
    h2: HtmlResponseHandler,
    enc: Encoding,
)
    requires
        h0.wf(),
        encode_step(h0, h1, enc),
        encode_step(h1, h2, enc),
    ensures
        h2.compressions(enc) <= h0.compressions(enc) + 1,
        h2 == h1,
        h2.stored(enc) == h1.stored(enc),
        h2.stored(enc) == outcome(enc, encode_utf8(h0.page())),
{
}

impl HtmlResponseHandler {
    /// The compacted page.
    pub closed spec fn page(&self) -> Seq<char> {
        self.raw_content@
    }

    spec fn memo(&self, enc: Encoding) -> &Memo {
        match enc {
            Encoding::Gzip => &self.gzip_content,
            _ => &self.deflate_content,
        }
    }

    /// How many times the compression for `enc` has been computed.
    pub closed spec fn compressions(&self, enc: Encoding) -> nat {
        match enc {
            Encoding::Identity => 0,
            Encoding::Gzip => self.gzip_runs@,
            Encoding::Deflate => self.deflate_runs@,
        }
    }

    /// Whether the form for `enc` is known: the page itself, or a
    /// compression that has been computed (with or without success).
    pub closed spec fn settled(&self, enc: Encoding) -> bool {
        enc == Encoding::Identity || !(self.memo(enc) is Pending)
    }

    /// The bytes kept for `enc`, where there are any.
    pub closed spec fn stored(&self, enc: Encoding) -> Option<Seq<u8>> {
        if enc == Encoding::Identity {
            Some(self.raw_bytes@)
        } else {
            match self.memo(enc) {
                Memo::Done(c) => Some(c@),
                _ => None,
            }
        }
    }

    pub closed spec fn wf(&self) -> bool {
        &&& self.raw_bytes@ == encode_utf8(self.raw_content@)
        &&& self.gzip_content matches Memo::Done(c) ==> gzip_outcome(self.raw_bytes@) == Some(c@)
        &&& self.gzip_content is Failed ==> gzip_outcome(self.raw_bytes@) is None
        &&& self.deflate_content matches Memo::Done(c) ==> deflate_outcome(self.raw_bytes@) == Some(c@)
        &&& self.deflate_content is Failed ==> deflate_outcome(self.raw_bytes@) is None
        &&& self.gzip_runs@ == (if self.gzip_content is Pending { 0nat } else { 1nat })
        &&& self.deflate_runs@ == (if self.deflate_content is Pending { 0nat } else { 1nat })
    }

    /// A form is kept only once known, and a known form is what encoding
    /// the page gives.
    pub proof fn lemma_settled_forms(&self, enc: Encoding)
        requires
            self.wf(),
        ensures
            self.stored(enc) is Some ==> self.settled(enc),
            self.settled(enc) ==> self.stored(enc) == outcome(enc, encode_utf8(self.page())),
    {
    }

    /// Takes the page, compacted; nothing is compressed yet.
    pub fn new(content: &str) -> (r: HtmlResponseHandler)
        ensures
            r.wf(),
            r.page() == compacted(content@),
            forall|e: Encoding| #[trigger] r.compressions(e) == 0,
            forall|e: Encoding| #[trigger] r.settled(e) == (e == Encoding::Identity),
    {
        let raw = compact(content);
        let bytes = raw.as_str().as_bytes_vec();
        HtmlResponseHandler {
            raw_content: raw,
            raw_bytes: bytes,
            gzip_content: Memo::Pending,
            deflate_content: Memo::Pending,
            gzip_runs: Ghost(0),
            deflate_runs: Ghost(0),
        }
    }

    /// The compacted page.
    pub fn content(&self) -> (r: &str)
        ensures
            r@ == self.page(),
    {
        self.raw_content.as_str()
    }

    /// Whether the form for `enc` is known, so that serving it changes nothing.
    pub fn is_settled(&self, enc: Encoding) -> (r: bool)
        ensures
            r == self.settled(enc),
    {
        match enc {
            Encoding::Identity => true,
            Encoding::Gzip => !matches!(self.gzip_content, Memo::Pending),
            Encoding::Deflate => !matches!(self.deflate_content, Memo::Pending),
        }
    }

    /// Computes the compression for `enc` unless it is known already.
    pub fn encode(&mut self, enc: Encoding)
        requires
            old(self).wf(),
        ensures
            final(self).wf(),
            encode_step(*old(self), *final(self), enc),
    {
        match enc {
            Encoding::Identity => {},
            Encoding::Gzip => {
                if matches!(self.gzip_content, Memo::Pending) {
                    self.gzip_content = match gzip_best(self.raw_bytes.as_slice()) {
                        Some(c) => Memo::Done(c),
                        None => Memo::Failed,
                    };
                    self.gzip_runs = Ghost(self.gzip_runs@ + 1);
                }
            },
            Encoding::Deflate => {
                if matches!(self.deflate_content, Memo::Pending) {
                    self.deflate_content = match deflate_best(self.raw_bytes.as_slice()) {
                        Some(c) => Memo::Done(c),
                        None => Memo::Failed,
                    };
                    self.deflate_runs = Ghost(self.deflate_runs@ + 1);
                }
            },
        }
    }

    /// The form of the page to send for `enc`, and its encoding: the kept
    /// compression, or the page itself where there is none.
    pub fn body(&self, enc: Encoding) -> (r: (Encoding, Vec<u8>))
        requires
            self.wf(),
        ensures
            self.stored(enc) matches Some(c) ==> r.0 == enc && r.1@ == c,
            self.stored(enc) is None ==> r.0 == Encoding::Identity && r.1@ == encode_utf8(self.page()),
            self.settled(enc) ==> r.0 == served(enc, encode_utf8(self.page())).0
                && r.1@ == served(enc, encode_utf8(self.page())).1,
    {
        let kept = match enc {
            Encoding::Identity => None,
            Encoding::Gzip => match &self.gzip_content {
                Memo::Done(c) => Some(c),
                _ => None,
            },
            Encoding::Deflate => match &self.deflate_content {
                Memo::Done(c) => Some(c),
                _ => None,
            },
        };
        match kept {
            Some(c) => {
                let out = c.clone();
                assert(out@ =~= c@);
                (enc, out)
            },
            None => {
                let out = self.raw_bytes.clone();
                assert(out@ =~= self.raw_bytes@);
                (Encoding::Identity, out)
            },
        }
    }

    /// Serves the page to a client that accepts `accepted`: negotiates the
    /// encoding, computes its compression on first use, and returns the
    /// encoding sent and the bytes.
    pub fn respond(&mut self, accepted: &Vec<QualityItem>) -> (r: (Encoding, Vec<u8>))
        requires
            old(self).wf(),
        ensures
            final(self).wf(),
            encode_step(*old(self), *final(self), negotiated(accepted@)),
            r.0 == served(negotiated(accepted@), encode_utf8(old(self).page())).0,
            r.1@ == served(negotiated(accepted@), encode_utf8(old(self).page())).1,
            final(self).compressions(negotiated(accepted@)) <= 1,
    {
        let enc = negotiate(accepted);
        self.encode(enc);
        self.body(enc)
    }
}

} // verus!
