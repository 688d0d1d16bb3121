//! The boundary to the external CSS tokenizer (the `simplecss` crate).
//!
//! The tokenizer is deterministic: the stream of tokens it yields is a
//! function of the source text alone.  That stream is given the name
//! `token_stream`; `remaining_tokens` names what a tokenizer value has left
//! to yield.  The rule builder is verified against these names.
//!
//! The wrappers require ASCII input without trailing whitespace: on some
//! non-ASCII inputs the tokenizer slices the text off a character boundary
//! and panics, and on some inputs ending in whitespace it reads past the end
//! of its buffer.

use vstd::prelude::*;
use vstd::string::StrSliceExecFns;

verus! {

/// The whitespace characters the external tokenizer skips.
pub open spec fn tokenizer_space(c: char) -> bool {
    c == ' ' || c == '\t' || c == '\n' || c == '\r'
}

/// `s` with every trailing tokenizer-whitespace character dropped.
pub open spec fn strip_end_spaces(s: Seq<char>) -> Seq<char>
    decreases s.len(),
{
    if s.len() > 0 && tokenizer_space(s.last()) {
        strip_end_spaces(s.drop_last())
    } else {
        s
    }
}

proof fn lemma_strip_end_spaces_at(s: Seq<char>, j: int)
    requires
        0 <= j <= s.len(),
        forall|k: int| j <= k < s.len() ==> tokenizer_space(s[k]),
        j > 0 ==> !tokenizer_space(s[j - 1]),
    ensures
        strip_end_spaces(s) == s.subrange(0, j),
    decreases s.len() - j,
{
    if j == s.len() {
        assert(strip_end_spaces(s) =~= s.subrange(0, j));
    } else {
        assert(tokenizer_space(s.last()));
        let t = s.drop_last();
        lemma_strip_end_spaces_at(t, j);
        assert(t.subrange(0, j) =~= s.subrange(0, j));
    }
}

/// Drops trailing tokenizer whitespace, per `strip_end_spaces`.
pub fn strip_end_spaces_exec<'a>(s: &'a str) -> (r: &'a str)
    ensures
        r@ == strip_end_spaces(s@),
        r@.len() > 0 ==> !tokenizer_space(r@[r@.len() - 1]),
{
    let n: usize = s.unicode_len();
    let mut j: usize = n;
    while j > 0 && is_tokenizer_space(s.get_char(j - 1))
        invariant
            0 <= j <= n,
            n == s@.len(),
            forall|k: int| j <= k < n ==> tokenizer_space(s@[k]),
        decreases j,
    {
        j = j - 1;
    }
    proof {
        lemma_strip_end_spaces_at(s@, j as int);
    }
    s.substring_char(0, j)
}

fn is_tokenizer_space(c: char) -> (r: bool)
    ensures
        r == tokenizer_space(c),
{
    c == ' ' || c == '\t' || c == '\n' || c == '\r'
}

/// Position of a tokenizer error, 1-based row and column.
#[derive(Clone, Copy, PartialEq, Eq, Structural, Debug)]
pub struct ErrorPosition {
    pub row: usize,
    pub col: usize,
}

/// A low-level syntax error from the tokenizer, mirroring the error cases of
/// `simplecss::Error`; `NonAscii` is this library's own up-front rejection of
/// input the tokenizer cannot be fed safely, holding the character index of
/// the first offender.
#[derive(Clone, Copy, PartialEq, Eq, Structural, Debug)]
pub enum CssSyntaxError {
    UnexpectedEndOfStream(ErrorPosition),
    InvalidAdvance(isize, usize, ErrorPosition),
    UnsupportedToken(ErrorPosition),
    UnknownToken(ErrorPosition),
    NonAscii(usize),
}

/// One tokenizer event, with owned text.  `Ignored` stands for the token
/// kinds the rule builder does not react to (universal, attribute and
/// language-pseudo selectors, combinators and commas).
#[derive(Clone, PartialEq, Eq, Debug)]
pub enum CssToken {
    TypeSelector(String),
    IdSelector(String),
    ClassSelector(String),
    PseudoClass(String),
    Declaration(String, String),
    BlockStart,
    BlockEnd,
    EndOfStream,
    Ignored,
    SyntaxError(CssSyntaxError),
}

/// Mathematical image of a `CssToken`.
pub enum TokenModel {
    TypeSelector(Seq<char>),
    IdSelector(Seq<char>),
    ClassSelector(Seq<char>),
    PseudoClass(Seq<char>),
    Declaration(Seq<char>, Seq<char>),
    BlockStart,
    BlockEnd,
    EndOfStream,
    Ignored,
    SyntaxError(CssSyntaxError),
}

impl View for CssToken {
    type V = TokenModel;

    open spec fn view(&self) -> TokenModel {
        match self {
            CssToken::TypeSelector(s) => TokenModel::TypeSelector(s@),
            CssToken::IdSelector(s) => TokenModel::IdSelector(s@),
            CssToken::ClassSelector(s) => TokenModel::ClassSelector(s@),
            CssToken::PseudoClass(s) => TokenModel::PseudoClass(s@),
            CssToken::Declaration(k, v) => TokenModel::Declaration(k@, v@),
            CssToken::BlockStart => TokenModel::BlockStart,
            CssToken::BlockEnd => TokenModel::BlockEnd,
            CssToken::EndOfStream => TokenModel::EndOfStream,
            CssToken::Ignored => TokenModel::Ignored,
            CssToken::SyntaxError(e) => TokenModel::SyntaxError(*e),
        }
    }
}

/// Declares the external type `simplecss::Tokenizer`, the stateful tokenizer
/// this module wraps; its value is opaque here.
#[verifier::external_type_specification]
#[verifier::external_body]
pub struct ExTokenizer<'a>(simplecss::Tokenizer<'a>);

/// Declares the external type `simplecss::Error`, converted on arrival into
/// this library's `CssSyntaxError`.
#[verifier::external_type_specification]
#[verifier::external_body]
pub struct ExSimplecssError(simplecss::Error);

/// The event stream the external tokenizer yields for an ASCII source text
/// without trailing whitespace: every token and the first error, in order,
/// not including the final end-of-stream marker.
pub uninterp spec fn token_stream(s: Seq<char>) -> Seq<TokenModel>;

/// What a tokenizer value has left to yield, up to its first error.
pub uninterp spec fn remaining_tokens(t: simplecss::Tokenizer) -> Seq<TokenModel>;

/// The tokenizer was built over ASCII text with no trailing whitespace, so
/// advancing it cannot panic.
pub uninterp spec fn ascii_tokenizer(t: simplecss::Tokenizer) -> bool;

/// Relies on `simplecss::Tokenizer::new`: positions a tokenizer at the start
/// of `s`, about to yield the token stream of `s`.  Every stream entry either
/// consumes at least one character of `s` or is stuck on an unconsumed one,
/// which bounds the stream's length by the text's.
#[verifier::external_body]
pub(crate) fn tokenizer_new<'a>(s: &'a str) -> (t: simplecss::Tokenizer<'a>)
    requires
        s.is_ascii(),
        s@.len() > 0 ==> !tokenizer_space(s@[s@.len() - 1]),
    ensures
        ascii_tokenizer(t),
        remaining_tokens(t) == token_stream(s@),
        remaining_tokens(t).len() <= s@.len(),
{
    simplecss::Tokenizer::new(s)
}

/// Relies on `simplecss::Tokenizer::parse_next`: yields the next event of the
/// stream, or the end-of-stream marker once the stream is exhausted.  After a
/// syntax error the tokenizer's later behaviour is left unspecified, since
/// the stream ends at its first error.
#[verifier::external_body]
pub(crate) fn tokenizer_next<'a>(t: &mut simplecss::Tokenizer<'a>) -> (tok: CssToken)
    requires
        ascii_tokenizer(*old(t)),
    ensures
        ascii_tokenizer(*final(t)),
        remaining_tokens(*old(t)).len() > 0 ==> tok@ == remaining_tokens(*old(t))[0],
        remaining_tokens(*old(t)).len() > 0 && !(remaining_tokens(*old(t))[0] is SyntaxError)
            ==> remaining_tokens(*final(t)) == remaining_tokens(*old(t)).drop_first(),
        remaining_tokens(*old(t)).len() == 0 ==> tok@ == TokenModel::EndOfStream
            && remaining_tokens(*final(t)) == remaining_tokens(*old(t)),
{
    match t.parse_next() {
        Ok(simplecss::Token::TypeSelector(s)) => CssToken::TypeSelector(s.to_owned()),
        Ok(simplecss::Token::IdSelector(s)) => CssToken::IdSelector(s.to_owned()),
        Ok(simplecss::Token::ClassSelector(s)) => CssToken::ClassSelector(s.to_owned()),
        Ok(simplecss::Token::PseudoClass(s)) => CssToken::PseudoClass(s.to_owned()),
        Ok(simplecss::Token::Declaration(k, v)) => CssToken::Declaration(k.to_owned(), v.to_owned()),
        Ok(simplecss::Token::BlockStart) => CssToken::BlockStart,
        Ok(simplecss::Token::BlockEnd) => CssToken::BlockEnd,
        Ok(simplecss::Token::EndOfStream) => CssToken::EndOfStream,
        Ok(_) => CssToken::Ignored,
        Err(e) => CssToken::SyntaxError(syntax_error_of(e)),
    }
}

/// Relies on `simplecss::Error` only for its variants and the plain row,
/// column and length fields they carry.
#[verifier::external_body]
pub(crate) fn syntax_error_of(e: simplecss::Error) -> CssSyntaxError {
    match e {
        simplecss::Error::UnexpectedEndOfStream(p) => CssSyntaxError::UnexpectedEndOfStream(ErrorPosition { row: p.row, col: p.col }),
        simplecss::Error::InvalidAdvance { expected, total, pos } => CssSyntaxError::InvalidAdvance(expected, total, ErrorPosition { row: pos.row, col: pos.col }),
        simplecss::Error::UnsupportedToken(p) => CssSyntaxError::UnsupportedToken(ErrorPosition { row: p.row, col: p.col }),
        simplecss::Error::UnknownToken(p) => CssSyntaxError::UnknownToken(ErrorPosition { row: p.row, col: p.col }),
    }
}

} // verus!
